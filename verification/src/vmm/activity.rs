//! Per-VM proxy activity, an input of auto-suspend.
//!
//! The proxy records every request it forwards to a VM here. The idle detector
//! reads when the last one was, and the suspend gate how many are in flight,
//! so that a VM is never suspended in the middle of one.

use vstd::prelude::*;

use crate::text;
use crate::vmm::vm::VmId;

verus! {

/// One VM's activity. Times are in milliseconds of the caller's clock.
#[derive(Debug)]
pub struct Activity {
    pub vm_id: String,
    pub in_flight: usize,
    pub last_activity: Option<u64>,
}

/// The activity of all VMs.
#[derive(Debug)]
pub struct ActivityTracker {
    pub inner: Vec<Activity>,
}

/// One request in flight; finishing it releases the slot.
#[derive(Debug)]
pub struct ActivityGuard {
    pub vm_id: String,
}

/// Requests in flight and the time of the last activity, by VM. A VM that is
/// absent has seen none.
pub open spec fn activity_map(entries: Seq<Activity>) -> Map<Seq<char>, (nat, Option<u64>)>
    decreases entries.len(),
{
    if entries.len() == 0 {
        Map::empty()
    } else {
        activity_map(entries.drop_last()).insert(
            entries.last().vm_id@,
            (entries.last().in_flight as nat, entries.last().last_activity),
        )
    }
}

/// Requests in flight to a VM.
pub open spec fn flying_in(m: Map<Seq<char>, (nat, Option<u64>)>, vm: Seq<char>) -> nat {
    if m.contains_key(vm) {
        m[vm].0
    } else {
        0
    }
}

/// When the last activity of a VM was.
pub open spec fn latest_in(m: Map<Seq<char>, (nat, Option<u64>)>, vm: Seq<char>) -> Option<u64> {
    if m.contains_key(vm) {
        m[vm].1
    } else {
        None
    }
}

/// The activity once a request to `vm` has started at `now`.
pub open spec fn begun_in(
    m: Map<Seq<char>, (nat, Option<u64>)>,
    vm: Seq<char>,
    now: u64,
) -> Map<Seq<char>, (nat, Option<u64>)> {
    m.insert(vm, (flying_in(m, vm) + 1, Some(now)))
}

/// The activity once a request to `vm` has finished at `now`. A VM that was
/// forgotten meanwhile stays forgotten.
pub open spec fn ended_in(
    m: Map<Seq<char>, (nat, Option<u64>)>,
    vm: Seq<char>,
    now: u64,
) -> Map<Seq<char>, (nat, Option<u64>)> {
    if m.contains_key(vm) {
        let left = if flying_in(m, vm) == 0 {
            0
        } else {
            (flying_in(m, vm) - 1) as nat
        };
        m.insert(vm, (left, Some(now)))
    } else {
        m
    }
}

/// A request that finishes gives back exactly the slot it took, and both ends
/// of it count as activity.
pub proof fn law_finish_gives_slot_back(
    m: Map<Seq<char>, (nat, Option<u64>)>,
    vm: Seq<char>,
    begun: u64,
    ended: u64,
)
    ensures
        flying_in(begun_in(m, vm, begun), vm) == flying_in(m, vm) + 1,
        latest_in(begun_in(m, vm, begun), vm) == Some(begun),
        flying_in(ended_in(begun_in(m, vm, begun), vm, ended), vm) == flying_in(m, vm),
        latest_in(ended_in(begun_in(m, vm, begun), vm, ended), vm) == Some(ended),
{
}

/// What happens to one VM does not touch another's activity.
pub proof fn law_vms_are_independent(
    m: Map<Seq<char>, (nat, Option<u64>)>,
    vm: Seq<char>,
    other: Seq<char>,
    now: u64,
)
    requires
        vm != other,
    ensures
        flying_in(begun_in(m, vm, now), other) == flying_in(m, other),
        latest_in(begun_in(m, vm, now), other) == latest_in(m, other),
        flying_in(ended_in(m, vm, now), other) == flying_in(m, other),
        latest_in(ended_in(m, vm, now), other) == latest_in(m, other),
        flying_in(m.remove(vm), other) == flying_in(m, other),
        latest_in(m.remove(vm), other) == latest_in(m, other),
{
}

/// Whether no VM has two entries.
pub open spec fn distinct_vms(entries: Seq<Activity>) -> bool {
    forall|i: int, j: int|
        0 <= i < j < entries.len() ==> (#[trigger] entries[i]).vm_id@ != (
        #[trigger] entries[j]).vm_id@
}

/// The map has what the entries say.
proof fn lemma_activity_map(entries: Seq<Activity>)
    requires
        distinct_vms(entries),
    ensures
        forall|i: int|
            0 <= i < entries.len() ==> activity_map(entries).contains_key(
                (#[trigger] entries[i]).vm_id@,
            ) && activity_map(entries)[entries[i].vm_id@] == (
                entries[i].in_flight as nat,
                entries[i].last_activity,
            ),
        forall|vm: Seq<char>| #[trigger]
            activity_map(entries).contains_key(vm) ==> exists|i: int|
                0 <= i < entries.len() && (#[trigger] entries[i]).vm_id@ == vm,
    decreases entries.len(),
{
    if entries.len() > 0 {
        let init = entries.drop_last();
        assert(distinct_vms(init)) by {
            assert forall|i: int, j: int| 0 <= i < j < init.len() implies (
            #[trigger] init[i]).vm_id@ != (#[trigger] init[j]).vm_id@ by {
                assert(entries[i].vm_id@ != entries[j].vm_id@);
            }
        }
        lemma_activity_map(init);
        assert forall|i: int| 0 <= i < entries.len() implies activity_map(entries).contains_key(
            (#[trigger] entries[i]).vm_id@,
        ) && activity_map(entries)[entries[i].vm_id@] == (
            entries[i].in_flight as nat,
            entries[i].last_activity,
        ) by {
            if i < init.len() {
                assert(init[i] == entries[i]);
                assert(entries[i].vm_id@ != entries[entries.len() - 1].vm_id@);
            }
        }
        assert forall|vm: Seq<char>| #[trigger] activity_map(entries).contains_key(
            vm,
        ) implies exists|i: int| 0 <= i < entries.len() && (#[trigger] entries[i]).vm_id@
            == vm by {
            if vm == entries.last().vm_id@ {
                assert(entries[entries.len() - 1].vm_id@ == vm);
            } else {
                assert(activity_map(init).contains_key(vm));
                let i = choose|i: int| 0 <= i < init.len() && (#[trigger] init[i]).vm_id@ == vm;
                assert(entries[i].vm_id@ == vm);
            }
        }
    }
}

/// Two lists of entries that say the same have the same map.
proof fn lemma_same_map(entries: Seq<Activity>, m: Map<Seq<char>, (nat, Option<u64>)>)
    requires
        distinct_vms(entries),
        forall|i: int|
            0 <= i < entries.len() ==> m.contains_key((#[trigger] entries[i]).vm_id@)
                && m[entries[i].vm_id@] == (
                entries[i].in_flight as nat,
                entries[i].last_activity,
            ),
        forall|vm: Seq<char>| #[trigger]
            m.contains_key(vm) ==> exists|i: int|
                0 <= i < entries.len() && (#[trigger] entries[i]).vm_id@ == vm,
    ensures
        activity_map(entries) == m,
{
    lemma_activity_map(entries);
    let am = activity_map(entries);
    assert forall|vm: Seq<char>| am.contains_key(vm) == m.contains_key(vm) by {
        if am.contains_key(vm) {
            let i = choose|i: int| 0 <= i < entries.len() && (#[trigger] entries[i]).vm_id@ == vm;
            assert(m.contains_key(entries[i].vm_id@));
        }
        if m.contains_key(vm) {
            let i = choose|i: int| 0 <= i < entries.len() && (#[trigger] entries[i]).vm_id@ == vm;
            assert(am.contains_key(entries[i].vm_id@));
        }
    }
    assert forall|vm: Seq<char>| am.contains_key(vm) implies am[vm] == m[vm] by {
        let i = choose|i: int| 0 <= i < entries.len() && (#[trigger] entries[i]).vm_id@ == vm;
        assert(am[entries[i].vm_id@] == m[entries[i].vm_id@]);
    }
    assert(am =~= m);
}

impl View for ActivityTracker {
    type V = Map<Seq<char>, (nat, Option<u64>)>;

    open spec fn view(&self) -> Map<Seq<char>, (nat, Option<u64>)> {
        activity_map(self.inner@)
    }
}

impl ActivityTracker {
    /// Whether no VM has two entries.
    pub open spec fn wf(self) -> bool {
        distinct_vms(self.inner@)
    }

    /// A tracker that has seen nothing.
    pub fn new() -> (t: ActivityTracker)
        ensures
            t.wf(),
            t@ == Map::<Seq<char>, (nat, Option<u64>)>::empty(),
    {
        ActivityTracker { inner: Vec::new() }
    }

    fn find(&self, vm_id: &str) -> (at: Option<usize>)
        requires
            self.wf(),
        ensures
            match at {
                Some(i) => i < self.inner@.len() && self.inner@[i as int].vm_id@ == vm_id@
                    && self@.contains_key(vm_id@) && self@[vm_id@] == (
                    self.inner@[i as int].in_flight as nat,
                    self.inner@[i as int].last_activity,
                ),
                None => !self@.contains_key(vm_id@) && forall|j: int|
                    0 <= j < self.inner@.len() ==> (#[trigger] self.inner@[j]).vm_id@ != vm_id@,
            },
    {
        proof {
            lemma_activity_map(self.inner@);
        }
        let mut i: usize = 0;
        while i < self.inner.len()
            invariant
                i <= self.inner@.len(),
                forall|j: int| 0 <= j < i ==> (#[trigger] self.inner@[j]).vm_id@ != vm_id@,
                forall|j: int|
                    0 <= j < self.inner@.len() ==> self@.contains_key(
                        (#[trigger] self.inner@[j]).vm_id@,
                    ) && self@[self.inner@[j].vm_id@] == (
                        self.inner@[j].in_flight as nat,
                        self.inner@[j].last_activity,
                    ),
                forall|vm: Seq<char>| #[trigger]
                    self@.contains_key(vm) ==> exists|j: int|
                        0 <= j < self.inner@.len() && (#[trigger] self.inner@[j]).vm_id@ == vm,
            decreases self.inner@.len() - i,
        {
            if text::str_eq(&self.inner[i].vm_id, vm_id) {
                return Some(i);
            }
            i += 1;
        }
        None
    }

    /// Records the start of a proxied request to `vm_id` at `now`. The guard
    /// stands for it until it is finished.
    pub fn track(&mut self, vm_id: &VmId, now: u64) -> (guard: ActivityGuard)
        requires
            old(self).wf(),
            flying_in(old(self)@, vm_id.0@) < usize::MAX,
        ensures
            final(self).wf(),
            guard.vm_id@ == vm_id.0@,
            final(self)@ == begun_in(old(self)@, vm_id.0@, now),
    {
        let ghost want = begun_in(old(self)@, vm_id.0@, now);
        match self.find(&vm_id.0) {
            Some(i) => {
                let ghost before = self.inner@;
                self.inner[i].in_flight = self.inner[i].in_flight + 1;
                self.inner[i].last_activity = Some(now);
                proof {
                    lemma_entry_changed(before, self.inner@, i as int);
                    assert(self@ =~= want);
                }
            },
            None => {
                let ghost before = self.inner@;
                self.inner.push(
                    Activity { vm_id: vm_id.0.clone(), in_flight: 1, last_activity: Some(now) },
                );
                proof {
                    let after = self.inner@;
                    assert forall|i: int, j: int| 0 <= i < j < after.len() implies (
                    #[trigger] after[i]).vm_id@ != (#[trigger] after[j]).vm_id@ by {
                        assert(after[i] == before[i]);
                        if j < before.len() {
                            assert(after[j] == before[j]);
                        }
                    }
                    assert(after.drop_last() =~= before);
                    assert(self@ =~= want);
                }
            },
        }
        ActivityGuard { vm_id: vm_id.0.clone() }
    }

    /// Releases a request's slot at `now`. A finishing request is traffic too:
    /// otherwise one longer than the idle timeout would make the VM look idle
    /// the moment it completes.
    pub fn finish(&mut self, guard: ActivityGuard, now: u64)
        requires
            old(self).wf(),
        ensures
            final(self).wf(),
            final(self)@ == ended_in(old(self)@, guard.vm_id@, now),
    {
        if let Some(i) = self.find(&guard.vm_id) {
            let ghost before = self.inner@;
            self.inner[i].in_flight = self.inner[i].in_flight.saturating_sub(1);
            self.inner[i].last_activity = Some(now);
            proof {
                lemma_entry_changed(before, self.inner@, i as int);
                assert(self@ =~= ended_in(old(self)@, guard.vm_id@, now));
            }
        }
    }

    /// Requests currently being proxied to `vm_id`.
    pub fn in_flight(&self, vm_id: &VmId) -> (n: usize)
        requires
            self.wf(),
        ensures
            n == flying_in(self@, vm_id.0@),
    {
        match self.find(&vm_id.0) {
            Some(i) => self.inner[i].in_flight,
            None => 0,
        }
    }

    /// When the last activity of `vm_id` was, if any.
    pub fn last_activity(&self, vm_id: &VmId) -> (t: Option<u64>)
        requires
            self.wf(),
        ensures
            t == latest_in(self@, vm_id.0@),
    {
        match self.find(&vm_id.0) {
            Some(i) => self.inner[i].last_activity,
            None => None,
        }
    }

    /// Forgets a VM entirely (on destroy).
    pub fn clear(&mut self, vm_id: &VmId)
        requires
            old(self).wf(),
        ensures
            final(self).wf(),
            final(self)@ == old(self)@.remove(vm_id.0@),
    {
        proof {
            lemma_activity_map(self.inner@);
        }
        match self.find(&vm_id.0) {
            Some(k) => {
                let ghost before = self.inner@;
                let _gone = self.inner.remove(k);
                proof {
                    let after = self.inner@;
                    let want = old(self)@.remove(vm_id.0@);
                    assert forall|i: int| 0 <= i < after.len() implies #[trigger] after[i]
                        == before[if i < k { i } else { i + 1 }] && after[i].vm_id@
                        != vm_id.0@ by {
                        if i < k {
                            assert(before[i].vm_id@ != before[k as int].vm_id@);
                        } else {
                            assert(before[k as int].vm_id@ != before[i + 1].vm_id@);
                        }
                    }
                    assert forall|i: int, j: int| 0 <= i < j < after.len() implies (
                    #[trigger] after[i]).vm_id@ != (#[trigger] after[j]).vm_id@ by {
                        assert(after[i] == before[if i < k { i } else { i + 1 }]);
                        assert(after[j] == before[if j < k { j } else { j + 1 }]);
                    }
                    assert forall|vm: Seq<char>| #[trigger] want.contains_key(
                        vm,
                    ) implies exists|i: int|
                        0 <= i < after.len() && (#[trigger] after[i]).vm_id@ == vm by {
                        assert(old(self)@.contains_key(vm));
                        let i = choose|i: int|
                            0 <= i < before.len() && (#[trigger] before[i]).vm_id@ == vm;
                        if i < k {
                            assert(after[i].vm_id@ == vm);
                        } else {
                            assert(after[i - 1].vm_id@ == vm);
                        }
                    }
                    lemma_same_map(after, want);
                }
            },
            None => {
                proof {
                    assert(old(self)@.remove(vm_id.0@) =~= old(self)@);
                }
            },
        }
    }
}

/// Changing one entry, but not whose it is, keeps the entries distinct.
proof fn lemma_entry_changed(before: Seq<Activity>, after: Seq<Activity>, i: int)
    requires
        distinct_vms(before),
        0 <= i < before.len(),
        after.len() == before.len(),
        after[i].vm_id@ == before[i].vm_id@,
        forall|j: int| 0 <= j < before.len() && j != i ==> #[trigger] after[j] == before[j],
    ensures
        distinct_vms(after),
        activity_map(after) == activity_map(before).insert(
            after[i].vm_id@,
            (after[i].in_flight as nat, after[i].last_activity),
        ),
{
    assert forall|j: int| 0 <= j < before.len() implies (#[trigger] after[j]).vm_id@
        == before[j].vm_id@ by {
        if j != i {
            assert(after[j] == before[j]);
        }
    }
    assert forall|j: int, k: int| 0 <= j < k < after.len() implies (#[trigger] after[j]).vm_id@
        != (#[trigger] after[k]).vm_id@ by {
        assert(before[j].vm_id@ != before[k].vm_id@);
    }
    let want = activity_map(before).insert(
        after[i].vm_id@,
        (after[i].in_flight as nat, after[i].last_activity),
    );
    lemma_activity_map(before);
    assert forall|vm: Seq<char>| #[trigger] want.contains_key(vm) implies exists|j: int|
        0 <= j < after.len() && (#[trigger] after[j]).vm_id@ == vm by {
        if vm == after[i].vm_id@ {
            assert(after[i].vm_id@ == vm);
        } else {
            assert(activity_map(before).contains_key(vm));
            let j = choose|j: int| 0 <= j < before.len() && (#[trigger] before[j]).vm_id@ == vm;
            assert(after[j].vm_id@ == vm);
        }
    }
    assert forall|j: int| 0 <= j < after.len() implies want.contains_key(
        (#[trigger] after[j]).vm_id@,
    ) && want[after[j].vm_id@] == (after[j].in_flight as nat, after[j].last_activity) by {
        if j != i {
            assert(after[j] == before[j]);
            if j < i {
                assert(before[j].vm_id@ != before[i].vm_id@);
            } else {
                assert(before[i].vm_id@ != before[j].vm_id@);
            }
        }
    }
    lemma_same_map(after, want);
}

} // verus!
