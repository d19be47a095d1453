//! What the dashboard shows of the latest poll: rows, and which is selected.
//!
//! The selection is kept by the VM's name, so that it survives refreshes.

use vstd::prelude::*;

use crate::text;
use crate::vmtop::listing::{count_states, lay_out, list_vms, Group, RowId, SortOrder, StateCounts};
use crate::vmtop::model::Vm;

verus! {

/// What is shown.
#[derive(Debug)]
pub struct VmView {
    /// All VMs of the latest successful poll.
    pub all: Vec<Vm>,
    /// The VMs that are shown, by where they stand among all.
    pub order: Vec<usize>,
    pub groups: Vec<Group>,
    pub rows: Vec<RowId>,
    /// The name of the selected VM.
    pub selected_id: Option<String>,
    /// The row that is selected.
    pub selected_row: Option<usize>,
    /// Whether VMs are grouped by project.
    pub grouped: bool,
    pub sort: SortOrder,
    /// Only VMs that match are shown; empty matches all.
    pub filter: String,
}

impl Default for VmView {
    fn default() -> (v: Self)
        ensures
            v.wf(),
            v.all@.len() == 0,
            v.grouped,
            v.sort == SortOrder::State,
            v.filter@.len() == 0,
            v.rows@.len() == 0,
            v.selected_id is None,
            v.selected_row is None,
    {
        VmView::new(true, SortOrder::State)
    }
}

// ---------------------------------------------------------------------------
// Rows
// ---------------------------------------------------------------------------

/// The first VM row from a row on.
pub open spec fn vm_row_from(rows: Seq<RowId>, from: int) -> Option<usize>
    decreases rows.len() - from,
{
    if from < 0 || from >= rows.len() {
        None
    } else if rows[from] is Vm {
        Some(from as usize)
    } else {
        vm_row_from(rows, from + 1)
    }
}

/// The name of the VM in a row.
pub open spec fn row_vm_id(all: Seq<Vm>, order: Seq<usize>, row: RowId) -> Option<Seq<char>> {
    match row {
        RowId::Vm(k) => Some(all[order[k as int] as int].vm_id@),
        RowId::Group(_) => None,
    }
}

/// The first row from a row on that shows the VM of a name.
pub open spec fn row_of_vm(
    all: Seq<Vm>,
    order: Seq<usize>,
    rows: Seq<RowId>,
    id: Seq<char>,
    from: int,
) -> Option<usize>
    decreases rows.len() - from,
{
    if from < 0 || from >= rows.len() {
        None
    } else if row_vm_id(all, order, rows[from]) == Some(id) {
        Some(from as usize)
    } else {
        row_of_vm(all, order, rows, id, from + 1)
    }
}

/// What is selected after the rows have changed: the same VM if it is still
/// shown, else the first VM from the previous row on, else the first VM.
pub open spec fn repinned(
    all: Seq<Vm>,
    order: Seq<usize>,
    rows: Seq<RowId>,
    selected_id: Option<Seq<char>>,
    selected_row: Option<usize>,
) -> Option<usize> {
    let same = match selected_id {
        Some(id) => row_of_vm(all, order, rows, id, 0),
        None => None,
    };
    let near = match selected_row {
        Some(row) => vm_row_from(rows, row as int),
        None => None,
    };
    if same is Some {
        same
    } else if near is Some {
        near
    } else {
        vm_row_from(rows, 0)
    }
}

/// `vm_row_from` finds a VM row, the first one, exactly if there is one.
proof fn lemma_vm_row_from(rows: Seq<RowId>, from: int)
    requires
        0 <= from,
        rows.len() <= usize::MAX,
    ensures
        match vm_row_from(rows, from) {
            Some(r) => from <= r < rows.len() && rows[r as int] is Vm && forall|j: int|
                from <= j < r ==> !(#[trigger] rows[j] is Vm),
            None => forall|j: int| from <= j < rows.len() ==> !(#[trigger] rows[j] is Vm),
        },
    decreases rows.len() - from,
{
    if from < rows.len() && !(rows[from] is Vm) {
        lemma_vm_row_from(rows, from + 1);
    }
}

/// `row_of_vm` finds the first row of a VM, exactly if there is one.
proof fn lemma_row_of_vm(
    all: Seq<Vm>,
    order: Seq<usize>,
    rows: Seq<RowId>,
    id: Seq<char>,
    from: int,
)
    requires
        0 <= from,
        rows.len() <= usize::MAX,
    ensures
        match row_of_vm(all, order, rows, id, from) {
            Some(r) => from <= r < rows.len() && row_vm_id(all, order, rows[r as int]) == Some(id),
            None => forall|j: int|
                from <= j < rows.len() ==> row_vm_id(all, order, #[trigger] rows[j]) != Some(id),
        },
    decreases rows.len() - from,
{
    if from < rows.len() && row_vm_id(all, order, rows[from]) != Some(id) {
        lemma_row_of_vm(all, order, rows, id, from + 1);
    }
}

/// The rows that show VMs.
pub open spec fn vm_rows_of(rows: Seq<RowId>) -> Seq<usize>
    decreases rows.len(),
{
    if rows.len() == 0 {
        seq![]
    } else {
        let rest = vm_rows_of(rows.drop_last());
        if rows.last() is Vm {
            rest.push((rows.len() - 1) as usize)
        } else {
            rest
        }
    }
}

/// `vm_rows_of` has the VM rows and nothing else.
proof fn lemma_vm_rows_of(rows: Seq<RowId>)
    requires
        rows.len() <= usize::MAX,
    ensures
        forall|j: int|
            0 <= j < vm_rows_of(rows).len() ==> (#[trigger] vm_rows_of(rows)[j]) < rows.len()
                && rows[vm_rows_of(rows)[j] as int] is Vm,
        forall|r: int|
            0 <= r < rows.len() && #[trigger] rows[r] is Vm ==> vm_rows_of(rows).contains(
                r as usize,
            ),
    decreases rows.len(),
{
    if rows.len() > 0 {
        let init = rows.drop_last();
        lemma_vm_rows_of(init);
        let rest = vm_rows_of(init);
        let full = vm_rows_of(rows);
        assert forall|j: int| 0 <= j < full.len() implies (#[trigger] full[j]) < rows.len()
            && rows[full[j] as int] is Vm by {
            if j < rest.len() {
                assert(full[j] == rest[j]);
                assert(rows[full[j] as int] == init[rest[j] as int]);
            }
        }
        assert forall|r: int| 0 <= r < rows.len() && #[trigger] rows[r] is Vm implies full.contains(
            r as usize,
        ) by {
            if r < init.len() {
                assert(init[r] is Vm);
                let j = choose|j: int| 0 <= j < rest.len() && rest[j] == r as usize;
                assert(full[j] == r as usize);
            } else {
                assert(full[rest.len() as int] == r as usize);
            }
        }
    }
}

/// Where a row stands among rows; their number if it is not among them.
pub open spec fn index_in(rows: Seq<usize>, row: usize) -> nat
    decreases rows.len(),
{
    if rows.len() == 0 || rows[0] == row {
        0
    } else {
        1 + index_in(rows.drop_first(), row)
    }
}

/// Where a row stands among VM rows; 0 if it is none.
pub open spec fn place_of(vm_rows: Seq<usize>, row: Option<usize>) -> nat {
    match row {
        Some(r) => if index_in(vm_rows, r) < vm_rows.len() {
            index_in(vm_rows, r)
        } else {
            0
        },
        None => 0,
    }
}

/// Where moving by `delta` leads, among `n` VM rows.
pub open spec fn moved(cur: nat, delta: int, n: nat) -> nat {
    let target = cur + delta;
    if target < 0 {
        0
    } else if target >= n {
        (n - 1) as nat
    } else {
        target as nat
    }
}

/// Every row of every VM that is shown refers to one.
proof fn lemma_member_rows_in_range(pids: Seq<u64>, p: u64, n: nat)
    requires
        n <= usize::MAX,
    ensures
        forall|j: int|
            0 <= j < member_len(pids, p, n) ==> (
            #[trigger] crate::vmtop::listing::member_rows(pids, p, n)[j]) is Vm
                && crate::vmtop::listing::member_rows(pids, p, n)[j]->Vm_0 < n,
    decreases n,
{
    if n > 0 {
        lemma_member_rows_in_range(pids, p, (n - 1) as nat);
        let rest = crate::vmtop::listing::member_rows(pids, p, (n - 1) as nat);
        let full = crate::vmtop::listing::member_rows(pids, p, n);
        assert forall|j: int| 0 <= j < full.len() implies (#[trigger] full[j]) is Vm
            && full[j]->Vm_0 < n by {
            if j < rest.len() {
                assert(full[j] == rest[j]);
            }
        }
    }
}

spec fn member_len(pids: Seq<u64>, p: u64, n: nat) -> nat {
    crate::vmtop::listing::member_rows(pids, p, n).len()
}

proof fn lemma_grouped_rows_in_range(pids: Seq<u64>, projects: Seq<u64>)
    requires
        pids.len() <= usize::MAX,
    ensures
        forall|j: int|
            0 <= j < crate::vmtop::listing::grouped_rows(pids, projects).len() && (
            #[trigger] crate::vmtop::listing::grouped_rows(pids, projects)[j]) is Vm
                ==> crate::vmtop::listing::grouped_rows(pids, projects)[j]->Vm_0 < pids.len(),
    decreases projects.len(),
{
    if projects.len() > 0 {
        let init = crate::vmtop::listing::grouped_rows(pids, projects.drop_last());
        let members = crate::vmtop::listing::member_rows(pids, projects.last(), pids.len());
        let full = crate::vmtop::listing::grouped_rows(pids, projects);
        lemma_grouped_rows_in_range(pids, projects.drop_last());
        lemma_member_rows_in_range(pids, projects.last(), pids.len());
        assert forall|j: int| 0 <= j < full.len() && (#[trigger] full[j]) is Vm implies full[j]->Vm_0
            < pids.len() by {
            if j < init.len() {
                assert(full[j] == init[j]);
            } else if j > init.len() {
                assert(full[j] == members[j - init.len() - 1]);
            }
        }
    }
}

/// Rows of VMs refer to VMs that are shown.
proof fn lemma_rows_in_range(
    all: Seq<Vm>,
    order: Seq<usize>,
    grouped: bool,
    groups: Seq<Group>,
    rows: Seq<RowId>,
)
    requires
        crate::vmtop::listing::laid_out(all, order, grouped, groups, rows),
        order.len() <= usize::MAX,
    ensures
        forall|j: int|
            0 <= j < rows.len() && (#[trigger] rows[j]) is Vm ==> rows[j]->Vm_0 < order.len(),
{
    if grouped {
        lemma_grouped_rows_in_range(
            crate::vmtop::listing::projects_shown(all, order),
            crate::vmtop::listing::project_ids(groups),
        );
    }
}

impl VmView {
    /// Whether the rows are those of the VMs, the filter and the order, and
    /// what is selected is a VM row, if there is one, with a VM's name kept.
    pub open spec fn wf(self) -> bool {
        &&& self.built()
        &&& match self.selected_row {
            Some(r) => r < self.rows@.len() && self.rows@[r as int] is Vm
                && self.selected_id is Some,
            None => forall|j: int| 0 <= j < self.rows@.len() ==> !(#[trigger] self.rows@[j] is Vm),
        }
    }

    /// Whether the rows are those of the VMs, the filter and the order.
    pub open spec fn built(self) -> bool {
        &&& crate::vmtop::listing::listed(
            self.all@,
            self.all@.len() as int,
            self.filter@,
            self.sort,
            self.order@,
        )
        &&& crate::vmtop::listing::laid_out(
            self.all@,
            self.order@,
            self.grouped,
            self.groups@,
            self.rows@,
        )
        &&& forall|j: int|
            0 <= j < self.rows@.len() && (#[trigger] self.rows@[j]) is Vm ==> self.rows@[j]->Vm_0
                < self.order@.len()
    }

    /// What a view is after a change that keeps the selection where it can. A
    /// name that is kept stays, also while its VM is not shown and another one
    /// stands in for it; if there is none, that of the VM selected now is kept.
    pub open spec fn reshown(self, before: VmView) -> bool {
        &&& self.wf()
        &&& if before.selected_id is Some || self.selected_row is None {
            self.selected_id == before.selected_id
        } else {
            text::opt_view(self.selected_id) == self.selection()
        }
        &&& self.selected_row == repinned(
            self.all@,
            self.order@,
            self.rows@,
            text::opt_view(before.selected_id),
            before.selected_row,
        )
    }

    /// The name of the selected VM, by its row.
    pub open spec fn selection(self) -> Option<Seq<char>> {
        match self.selected_row {
            Some(r) => row_vm_id(self.all@, self.order@, self.rows@[r as int]),
            None => None,
        }
    }

    /// A view that shows nothing yet.
    pub fn new(grouped: bool, sort: SortOrder) -> (v: VmView)
        ensures
            v.wf(),
            v.all@.len() == 0,
            v.grouped == grouped,
            v.sort == sort,
            v.filter@.len() == 0,
            v.rows@.len() == 0,
            v.selected_id is None,
            v.selected_row is None,
    {
        let all: Vec<Vm> = Vec::new();
        let order: Vec<usize> = Vec::new();
        let (groups, rows) = lay_out(&all, &order, grouped);
        proof {
            if grouped {
                let projects = crate::vmtop::listing::project_ids(groups@);
                if projects.len() > 0 {
                    assert(projects.contains(projects[0]));
                    assert(crate::vmtop::listing::projects_shown(all@, order@).contains(
                        projects[0],
                    ));
                }
            }
            assert(rows@.len() == 0);
        }
        let filter = String::new();
        VmView {
            all,
            order,
            groups,
            rows,
            selected_id: None,
            selected_row: None,
            grouped,
            sort,
            filter,
        }
    }

    /// Rebuilds the rows and selects anew.
    fn rebuild(&mut self)
        ensures
            final(self).reshown(*old(self)),
            final(self).all == old(self).all,
            final(self).grouped == old(self).grouped,
            final(self).sort == old(self).sort,
            final(self).filter == old(self).filter,
    {
        self.order = list_vms(&self.all, &self.filter, self.sort);
        let (groups, rows) = lay_out(&self.all, &self.order, self.grouped);
        self.groups = groups;
        self.rows = rows;
        proof {
            assert(self.order.len() == self.order@.len());
            lemma_rows_in_range(
                self.all@,
                self.order@,
                self.grouped,
                self.groups@,
                self.rows@,
            );
        }
        self.repin_selection();
    }

    /// The first VM row from a row on.
    fn first_vm_row(&self, from: usize) -> (r: Option<usize>)
        ensures
            r == vm_row_from(self.rows@, from as int),
    {
        let mut i: usize = from;
        while i < self.rows.len()
            invariant
                from <= i,
                vm_row_from(self.rows@, from as int) == vm_row_from(self.rows@, i as int),
            decreases self.rows@.len() - i,
        {
            if matches!(self.rows[i], RowId::Vm(_)) {
                return Some(i);
            }
            i += 1;
        }
        None
    }

    /// The first row that shows the VM of a name.
    fn find_row(&self, id: &str) -> (r: Option<usize>)
        requires
            self.built(),
        ensures
            r == row_of_vm(self.all@, self.order@, self.rows@, id@, 0),
    {
        let mut i: usize = 0;
        while i < self.rows.len()
            invariant
                self.built(),
                i <= self.rows@.len(),
                row_of_vm(self.all@, self.order@, self.rows@, id@, 0) == row_of_vm(
                    self.all@,
                    self.order@,
                    self.rows@,
                    id@,
                    i as int,
                ),
            decreases self.rows@.len() - i,
        {
            if let RowId::Vm(k) = self.rows[i] {
                if text::str_eq(&self.all[self.order[k]].vm_id, id) {
                    return Some(i);
                }
            }
            i += 1;
        }
        None
    }

    /// Selects anew after the rows have changed.
    fn repin_selection(&mut self)
        requires
            old(self).built(),
        ensures
            final(self).reshown(*old(self)),
            only_selection(*old(self), *final(self)),
    {
        proof {
            assert(self.rows.len() == self.rows@.len());
            lemma_vm_row_from(self.rows@, 0);
            if let Some(row) = self.selected_row {
                lemma_vm_row_from(self.rows@, row as int);
            }
            if self.selected_id is Some {
                lemma_row_of_vm(
                    self.all@,
                    self.order@,
                    self.rows@,
                    self.selected_id->0@,
                    0,
                );
            }
        }
        let same = match &self.selected_id {
            Some(id) => self.find_row(id),
            None => None,
        };
        let near = match self.selected_row {
            Some(row) => self.first_vm_row(row),
            None => None,
        };
        self.selected_row = if same.is_some() {
            same
        } else if near.is_some() {
            near
        } else {
            self.first_vm_row(0)
        };
        if self.selected_id.is_none() {
            if let Some(row) = self.selected_row {
                self.stamp_selected(row);
            }
        }
    }

    /// Keeps the name of the VM in a row.
    fn stamp_selected(&mut self, row: usize)
        requires
            old(self).built(),
            row < old(self).rows@.len(),
            old(self).rows@[row as int] is Vm,
        ensures
            *final(self) == (VmView { selected_id: final(self).selected_id, ..*old(self) }),
            text::opt_view(final(self).selected_id) == row_vm_id(
                old(self).all@,
                old(self).order@,
                old(self).rows@[row as int],
            ),
    {
        if let RowId::Vm(k) = self.rows[row] {
            let id = self.all[self.order[k]].vm_id.clone();
            self.selected_id = Some(id);
        }
    }

    /// Takes over a fresh poll.
    pub fn update(&mut self, vms: Vec<Vm>)
        ensures
            final(self).reshown(*old(self)),
            final(self).all == vms,
            final(self).grouped == old(self).grouped,
            final(self).sort == old(self).sort,
            final(self).filter == old(self).filter,
    {
        self.all = vms;
        self.rebuild();
    }

    /// Shows only VMs that match.
    pub fn set_filter(&mut self, filter: &str)
        requires
            old(self).wf(),
        ensures
            final(self).wf(),
            final(self).filter@ == filter@,
            final(self).all == old(self).all,
            final(self).grouped == old(self).grouped,
            final(self).sort == old(self).sort,
            if filter@ == old(self).filter@ {
                *final(self) == *old(self)
            } else {
                final(self).reshown(*old(self))
            },
    {
        if text::str_eq(&self.filter, filter) {
            return;
        }
        self.filter = filter.to_owned();
        self.rebuild();
    }

    /// Shows all VMs again.
    pub fn clear_filter(&mut self)
        requires
            old(self).wf(),
        ensures
            final(self).wf(),
            final(self).filter@.len() == 0,
            final(self).all == old(self).all,
            final(self).grouped == old(self).grouped,
            final(self).sort == old(self).sort,
            if old(self).filter@.len() == 0 {
                *final(self) == *old(self)
            } else {
                final(self).reshown(*old(self))
            },
    {
        if self.filter.as_str().unicode_len() > 0 {
            self.filter = String::new();
            self.rebuild();
        }
    }

    /// Groups VMs by project, or does not.
    pub fn set_grouped(&mut self, grouped: bool)
        requires
            old(self).wf(),
        ensures
            final(self).wf(),
            final(self).grouped == grouped,
            final(self).all == old(self).all,
            final(self).filter == old(self).filter,
            final(self).sort == old(self).sort,
            if grouped == old(self).grouped {
                *final(self) == *old(self)
            } else {
                final(self).reshown(*old(self))
            },
    {
        if self.grouped != grouped {
            self.grouped = grouped;
            self.rebuild();
        }
    }

    /// Groups VMs by project if they are not, and the other way round.
    pub fn toggle_grouped(&mut self)
        requires
            old(self).wf(),
        ensures
            final(self).reshown(*old(self)),
            final(self).grouped == !old(self).grouped,
            final(self).all == old(self).all,
            final(self).filter == old(self).filter,
            final(self).sort == old(self).sort,
    {
        self.set_grouped(!self.grouped);
    }

    /// Orders VMs otherwise.
    pub fn set_sort(&mut self, sort: SortOrder)
        requires
            old(self).wf(),
        ensures
            final(self).wf(),
            final(self).sort == sort,
            final(self).all == old(self).all,
            final(self).filter == old(self).filter,
            final(self).grouped == old(self).grouped,
            if sort == old(self).sort {
                *final(self) == *old(self)
            } else {
                final(self).reshown(*old(self))
            },
    {
        if self.sort != sort {
            self.sort = sort;
            self.rebuild();
        }
    }
}

/// Where a row stands among VM rows; 0 if it is none.
fn place_among(vm_rows: &Vec<usize>, row: Option<usize>) -> (at: usize)
    ensures
        at == place_of(vm_rows@, row),
{
    let r = match row {
        Some(r) => r,
        None => {
            return 0;
        },
    };
    let mut i: usize = 0;
    proof {
        assert(vm_rows@.skip(0) =~= vm_rows@);
    }
    while i < vm_rows.len()
        invariant
            i <= vm_rows@.len(),
            row == Some(r),
            index_in(vm_rows@, r) == i + index_in(vm_rows@.skip(i as int), r),
        decreases vm_rows@.len() - i,
    {
        proof {
            assert(vm_rows@.skip(i as int)[0] == vm_rows@[i as int]);
            assert(vm_rows@.skip(i as int).drop_first() =~= vm_rows@.skip(i as int + 1));
        }
        if vm_rows[i] == r {
            return i;
        }
        i += 1;
    }
    0
}

/// Whether only the selection differs.
pub open spec fn only_selection(before: VmView, after: VmView) -> bool {
    after == (VmView {
        selected_id: after.selected_id,
        selected_row: after.selected_row,
        ..before
    })
}

/// Whether a row of a view was selected, and its VM's name kept.
pub open spec fn selected(before: VmView, after: VmView, row: usize) -> bool {
    &&& only_selection(before, after)
    &&& after.selected_row == Some(row)
    &&& text::opt_view(after.selected_id) == row_vm_id(
        before.all@,
        before.order@,
        before.rows@[row as int],
    )
}

impl VmView {
    /// The rows that show VMs.
    fn vm_rows(&self) -> (r: Vec<usize>)
        ensures
            r@ == vm_rows_of(self.rows@),
    {
        let mut r: Vec<usize> = Vec::new();
        let mut i: usize = 0;
        proof {
            assert(self.rows@.take(0) =~= seq![]);
        }
        while i < self.rows.len()
            invariant
                i <= self.rows@.len(),
                r@ == vm_rows_of(self.rows@.take(i as int)),
            decreases self.rows@.len() - i,
        {
            proof {
                assert(self.rows@.take(i as int + 1).drop_last() =~= self.rows@.take(i as int));
            }
            if matches!(self.rows[i], RowId::Vm(_)) {
                r.push(i);
            }
            i += 1;
        }
        proof {
            assert(self.rows@.take(self.rows@.len() as int) =~= self.rows@);
        }
        r
    }

    /// Selects a VM row and keeps its VM's name.
    fn select(&mut self, row: usize)
        requires
            old(self).wf(),
            row < old(self).rows@.len(),
            old(self).rows@[row as int] is Vm,
        ensures
            final(self).wf(),
            selected(*old(self), *final(self), row),
    {
        self.selected_row = Some(row);
        self.stamp_selected(row);
    }

    /// Moves the selection by `delta` VMs, past headers, and no further than
    /// the ends of the list.
    pub fn move_selected(&mut self, delta: isize)
        requires
            old(self).wf(),
        ensures
            final(self).wf(),
            ({
                let vm_rows = vm_rows_of(old(self).rows@);
                if vm_rows.len() == 0 {
                    *final(self) == *old(self)
                } else {
                    let to = moved(
                        place_of(vm_rows, old(self).selected_row),
                        delta as int,
                        vm_rows.len(),
                    );
                    selected(*old(self), *final(self), vm_rows[to as int])
                }
            }),
    {
        let vm_rows = self.vm_rows();
        let n: usize = vm_rows.len();
        if n == 0 {
            return;
        }
        let cur = place_among(&vm_rows, self.selected_row);
        let target: i128 = cur as i128 + delta as i128;
        let to: usize = if target < 0 {
            0
        } else if target >= n as i128 {
            n - 1
        } else {
            target as usize
        };
        proof {
            assert(self.rows.len() == self.rows@.len());
            lemma_vm_rows_of(self.rows@);
        }
        self.select(vm_rows[to]);
    }

    /// Moves the selection by a page.
    pub fn page_selected(&mut self, delta: isize)
        requires
            old(self).wf(),
        ensures
            final(self).wf(),
            ({
                let vm_rows = vm_rows_of(old(self).rows@);
                if vm_rows.len() == 0 {
                    *final(self) == *old(self)
                } else {
                    let to = moved(
                        place_of(vm_rows, old(self).selected_row),
                        delta as int,
                        vm_rows.len(),
                    );
                    selected(*old(self), *final(self), vm_rows[to as int])
                }
            }),
    {
        self.move_selected(delta);
    }

    /// Selects the first VM.
    pub fn jump_first(&mut self)
        requires
            old(self).wf(),
        ensures
            final(self).wf(),
            ({
                let vm_rows = vm_rows_of(old(self).rows@);
                if vm_rows.len() == 0 {
                    *final(self) == *old(self)
                } else {
                    selected(*old(self), *final(self), vm_rows[0])
                }
            }),
    {
        let vm_rows = self.vm_rows();
        if vm_rows.len() > 0 {
            proof {
                assert(self.rows.len() == self.rows@.len());
                lemma_vm_rows_of(self.rows@);
            }
            self.select(vm_rows[0]);
        }
    }

    /// Selects the last VM.
    pub fn jump_last(&mut self)
        requires
            old(self).wf(),
        ensures
            final(self).wf(),
            ({
                let vm_rows = vm_rows_of(old(self).rows@);
                if vm_rows.len() == 0 {
                    *final(self) == *old(self)
                } else {
                    selected(*old(self), *final(self), vm_rows.last())
                }
            }),
    {
        let vm_rows = self.vm_rows();
        let n: usize = vm_rows.len();
        if n > 0 {
            proof {
                assert(self.rows.len() == self.rows@.len());
                lemma_vm_rows_of(self.rows@);
            }
            self.select(vm_rows[n - 1]);
        }
    }

    /// The selected VM.
    pub fn selected_vm(&self) -> (vm: Option<&Vm>)
        requires
            self.wf(),
        ensures
            match (vm, self.selected_row) {
                (Some(v), Some(r)) => *v == self.all@[self.order@[self.rows@[r as int]->Vm_0 as int] as int],
                (None, None) => true,
                _ => false,
            },
            vm is Some ==> self.selection() == Some(vm->0.vm_id@),
    {
        match self.selected_row {
            None => None,
            Some(r) => match self.rows[r] {
                RowId::Vm(k) => Some(&self.all[self.order[k]]),
                RowId::Group(_) => None,
            },
        }
    }

    /// Whether no VM is shown.
    pub fn is_empty(&self) -> (b: bool)
        ensures
            b == (self.order@.len() == 0),
    {
        self.order.len() == 0
    }

    /// How many VMs are shown.
    pub fn visible_count(&self) -> (n: usize)
        ensures
            n == self.order@.len(),
    {
        self.order.len()
    }

    /// A VM that is shown.
    pub fn vm(&self, index: usize) -> (vm: &Vm)
        requires
            self.wf(),
            index < self.order@.len(),
        ensures
            *vm == self.all@[self.order@[index as int] as int],
    {
        &self.all[self.order[index]]
    }

    /// The header of a project.
    pub fn group(&self, index: usize) -> (g: &Group)
        requires
            index < self.groups@.len(),
        ensures
            *g == self.groups@[index as int],
    {
        &self.groups[index]
    }

    // -----------------------------------------------------------------------
    // The whole host
    // -----------------------------------------------------------------------

    /// How many VMs of the host are in which state, shown or not.
    pub fn host_counts(&self) -> (counts: StateCounts)
        ensures
            counts@ == crate::vmtop::listing::tally_of(
                crate::vmtop::listing::states_of(self.all@),
            ),
    {
        count_states(&self.all)
    }

    /// Whether what the VMs of the host were allotted can be added up.
    pub open spec fn alloc_fits(self) -> bool {
        cpus_of(self.all@) <= u32::MAX && memory_of(self.all@) <= u64::MAX
    }

    /// Whether what the VMs of the host were allotted can be added up.
    pub fn allocation_fits(&self) -> (b: bool)
        ensures
            b == self.alloc_fits(),
    {
        let mut cpu: u32 = 0;
        let mut mem: u64 = 0;
        let mut i: usize = 0;
        proof {
            assert(self.all@.take(0) =~= seq![]);
        }
        while i < self.all.len()
            invariant
                i <= self.all@.len(),
                cpu == cpus_of(self.all@.take(i as int)),
                mem == memory_of(self.all@.take(i as int)),
            decreases self.all@.len() - i,
        {
            proof {
                assert(self.all@.take(i as int + 1).drop_last() =~= self.all@.take(i as int));
                lemma_sums_grow(self.all@, i as int + 1);
            }
            match (
                cpu.checked_add(self.all[i].vm_config.cpus),
                mem.checked_add(self.all[i].vm_config.memory_mb as u64),
            ) {
                (Some(c), Some(m)) => {
                    cpu = c;
                    mem = m;
                },
                _ => {
                    return false;
                },
            }
            i += 1;
        }
        proof {
            assert(self.all@.take(self.all@.len() as int) =~= self.all@);
        }
        true
    }

    /// The processors and the memory in MiB that the VMs of the host were
    /// allotted.
    pub fn host_alloc(&self) -> (r: (u32, u64))
        requires
            self.alloc_fits(),
        ensures
            r.0 == cpus_of(self.all@),
            r.1 == memory_of(self.all@),
    {
        let mut cpu: u32 = 0;
        let mut mem: u64 = 0;
        let mut i: usize = 0;
        proof {
            assert(self.all@.take(0) =~= seq![]);
        }
        while i < self.all.len()
            invariant
                self.alloc_fits(),
                i <= self.all@.len(),
                cpu == cpus_of(self.all@.take(i as int)),
                mem == memory_of(self.all@.take(i as int)),
            decreases self.all@.len() - i,
        {
            proof {
                assert(self.all@.take(i as int + 1).drop_last() =~= self.all@.take(i as int));
                lemma_sums_grow(self.all@, i as int + 1);
            }
            cpu = cpu + self.all[i].vm_config.cpus;
            mem = mem + self.all[i].vm_config.memory_mb as u64;
            i += 1;
        }
        proof {
            assert(self.all@.take(self.all@.len() as int) =~= self.all@);
        }
        (cpu, mem)
    }

    /// How many projects have VMs on the host, shown or not.
    pub fn host_projects(&self) -> (n: usize)
        ensures
            n == projects_in(self.all@).len(),
    {
        let mut seen: Vec<u64> = Vec::new();
        let mut i: usize = 0;
        proof {
            assert(self.all@.take(0) =~= seq![]);
            assert(seen@.to_set() =~= projects_in(self.all@.take(0)));
        }
        while i < self.all.len()
            invariant
                i <= self.all@.len(),
                seen@.no_duplicates(),
                seen@.to_set() == projects_in(self.all@.take(i as int)),
            decreases self.all@.len() - i,
        {
            let p = self.all[i].vm_config.project_id;
            proof {
                assert(self.all@.take(i as int + 1).drop_last() =~= self.all@.take(i as int));
            }
            let mut k: usize = 0;
            while k < seen.len() && seen[k] != p
                invariant
                    k <= seen@.len(),
                    forall|j: int| 0 <= j < k ==> seen@[j] != p,
                decreases seen@.len() - k,
            {
                k += 1;
            }
            let ghost before = seen@;
            if k == seen.len() {
                seen.push(p);
                proof {
                    assert(seen@.to_set() =~= before.to_set().insert(p)) by {
                        assert forall|q: u64| seen@.to_set().contains(q) == before.to_set().insert(
                            p,
                        ).contains(q) by {
                            if before.contains(q) {
                                let j = choose|j: int| 0 <= j < before.len() && before[j] == q;
                                assert(seen@[j] == q);
                            }
                            if q == p {
                                assert(seen@[before.len() as int] == p);
                            }
                        }
                    }
                }
            } else {
                proof {
                    assert(before.contains(p));
                    assert(before.to_set().insert(p) =~= before.to_set());
                }
            }
            i += 1;
        }
        proof {
            assert(self.all@.take(self.all@.len() as int) =~= self.all@);
            seen@.unique_seq_to_set();
        }
        seen.len()
    }
}

/// The processors that VMs were allotted.
pub open spec fn cpus_of(vms: Seq<Vm>) -> nat
    decreases vms.len(),
{
    if vms.len() == 0 {
        0
    } else {
        cpus_of(vms.drop_last()) + vms.last().vm_config.cpus as nat
    }
}

/// The memory in MiB that VMs were allotted.
pub open spec fn memory_of(vms: Seq<Vm>) -> nat
    decreases vms.len(),
{
    if vms.len() == 0 {
        0
    } else {
        memory_of(vms.drop_last()) + vms.last().vm_config.memory_mb as nat
    }
}

/// The projects that VMs belong to.
pub open spec fn projects_in(vms: Seq<Vm>) -> Set<u64>
    decreases vms.len(),
{
    if vms.len() == 0 {
        Set::empty()
    } else {
        projects_in(vms.drop_last()).insert(vms.last().vm_config.project_id)
    }
}

/// More VMs were allotted no less.
proof fn lemma_sums_grow(vms: Seq<Vm>, n: int)
    requires
        0 <= n <= vms.len(),
    ensures
        cpus_of(vms.take(n)) <= cpus_of(vms),
        memory_of(vms.take(n)) <= memory_of(vms),
    decreases vms.len(),
{
    if n == vms.len() {
        assert(vms.take(n) =~= vms);
    } else {
        lemma_sums_grow(vms.drop_last(), n);
        assert(vms.drop_last().take(n) =~= vms.take(n));
    }
}

// ---------------------------------------------------------------------------
// Laws
// ---------------------------------------------------------------------------

/// The selection stays on the VM whose name is kept as long as that VM is
/// shown, however the rows change.
pub proof fn law_selection_follows_vm(before: VmView, after: VmView, row: int)
    requires
        before.selected_id is Some,
        after.reshown(before),
        0 <= row < after.rows@.len() <= usize::MAX,
        row_vm_id(after.all@, after.order@, after.rows@[row]) == Some(before.selected_id->0@),
    ensures
        after.selection() == Some(before.selected_id->0@),
        after.selected_id == before.selected_id,
{
    lemma_row_of_vm(after.all@, after.order@, after.rows@, before.selected_id->0@, 0);
}

/// A VM that was selected because nothing was before is followed like any
/// other.
pub proof fn law_default_selection_is_followed(
    before: VmView,
    shown: VmView,
    after: VmView,
    row: int,
)
    requires
        before.selected_id is None,
        shown.reshown(before),
        shown.selection() is Some,
        after.reshown(shown),
        0 <= row < after.rows@.len() <= usize::MAX,
        row_vm_id(after.all@, after.order@, after.rows@[row]) == shown.selection(),
    ensures
        after.selection() == shown.selection(),
{
    law_selection_follows_vm(shown, after, row);
}

/// Setting a filter and clearing it again restores the selection if its VM is
/// still there, whatever the filter hid and however the VMs changed meanwhile.
pub proof fn law_cleared_filter_restores_selection(
    before: VmView,
    filtered: VmView,
    after: VmView,
    row: int,
)
    requires
        before.selected_id is Some,
        before.selection() == text::opt_view(before.selected_id),
        filtered.reshown(before),
        after.reshown(filtered),
        0 <= row < after.rows@.len() <= usize::MAX,
        row_vm_id(after.all@, after.order@, after.rows@[row]) == before.selection(),
    ensures
        after.selection() == before.selection(),
{
    law_selection_follows_vm(filtered, after, row);
}

/// Whenever VMs are shown, one of them is selected.
pub proof fn law_some_vm_is_selected(view: VmView)
    requires
        view.wf(),
        exists|j: int| 0 <= j < view.rows@.len() && #[trigger] view.rows@[j] is Vm,
    ensures
        view.selection() is Some,
{
}

} // verus!
