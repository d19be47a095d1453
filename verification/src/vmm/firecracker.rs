//! The VMs of a host and what belongs to them.
//!
//! The library keeps the records and decides; the program holds the processes
//! and the connections, and carries out what is decided.

use vstd::prelude::*;

use crate::error::Error;
use crate::text;
use crate::vmm::activity::ActivityTracker;
use crate::vmm::create::Creation;
use crate::vmm::fc_api::FcApiClient;
use crate::vmm::state::VmState;
use crate::vmm::vm::{VmConfig, VmId, VmInstance};
use crate::vmm::workload::Workload;

verus! {

/// The first vsock address handed out; the ones below are reserved.
pub const FIRST_GUEST_CID: u32 = 3;

/// A registered VM.
#[derive(Debug)]
pub struct FcVmEntry {
    pub instance: VmInstance,
    /// Where its Firecracker process listens.
    pub api_client: FcApiClient,
    /// Whether a Firecracker process is held for it.
    pub has_process: bool,
    /// What runs or ran in it.
    pub workloads: Vec<Workload>,
    /// The number of the live connection to its guest agent, if any.
    pub guest_conn: Option<u64>,
    /// Where the output of its workloads is logged.
    pub workloads_dir: String,
    /// When it last came up, by start or restore, in milliseconds of the
    /// program's clock. The cooldown after a wake is measured from here.
    pub woken_at: Option<u64>,
    /// Whether a scheduled run of it is under way.
    pub run_active: bool,
}

/// The VMs of a host.
#[derive(Debug)]
pub struct FirecrackerVmm {
    pub assets_dir: String,
    pub work_dir: String,
    pub vms: Vec<FcVmEntry>,
    /// The next vsock address to hand out.
    pub next_cid: u32,
    /// Proxied requests, an input of auto-suspend.
    pub activity: ActivityTracker,
}

// ---------------------------------------------------------------------------
// Looking up
// ---------------------------------------------------------------------------

/// Whether an entry is of the given VM.
pub open spec fn is_vm(e: FcVmEntry, vm_id: Seq<char>) -> bool {
    e.instance.vm_id.0@ == vm_id
}

/// Where the entry of a VM stands; the number of entries if it has none.
pub open spec fn vm_index(vms: Seq<FcVmEntry>, vm_id: Seq<char>) -> nat
    decreases vms.len(),
{
    if vms.len() == 0 || is_vm(vms[0], vm_id) {
        0
    } else {
        1 + vm_index(vms.drop_first(), vm_id)
    }
}

/// `vm_index` is where the VM's entry stands first.
pub proof fn lemma_vm_index(vms: Seq<FcVmEntry>, vm_id: Seq<char>)
    ensures
        vm_index(vms, vm_id) <= vms.len(),
        vm_index(vms, vm_id) < vms.len() ==> is_vm(vms[vm_index(vms, vm_id) as int], vm_id),
        forall|i: int| 0 <= i < vm_index(vms, vm_id) ==> !is_vm(#[trigger] vms[i], vm_id),
    decreases vms.len(),
{
    if vms.len() > 0 && !is_vm(vms[0], vm_id) {
        lemma_vm_index(vms.drop_first(), vm_id);
        assert forall|i: int| 0 <= i < vm_index(vms, vm_id) implies !is_vm(
            #[trigger] vms[i],
            vm_id,
        ) by {
            if i > 0 {
                assert(!is_vm(vms.drop_first()[i - 1], vm_id));
            }
        }
    }
}

/// Whether a workload has the given name.
pub open spec fn is_workload(w: Workload, id: Seq<char>) -> bool {
    w.workload_id.0@ == id
}

/// Where a workload stands; the number of workloads if there is none of that
/// name.
pub open spec fn workload_index(workloads: Seq<Workload>, id: Seq<char>) -> nat
    decreases workloads.len(),
{
    if workloads.len() == 0 || is_workload(workloads[0], id) {
        0
    } else {
        1 + workload_index(workloads.drop_first(), id)
    }
}

/// `workload_index` is where a workload of that name stands first.
pub proof fn lemma_workload_index(workloads: Seq<Workload>, id: Seq<char>)
    ensures
        workload_index(workloads, id) <= workloads.len(),
        workload_index(workloads, id) < workloads.len() ==> is_workload(
            workloads[workload_index(workloads, id) as int],
            id,
        ),
        forall|i: int|
            0 <= i < workload_index(workloads, id) ==> !is_workload(#[trigger] workloads[i], id),
    decreases workloads.len(),
{
    if workloads.len() > 0 && !is_workload(workloads[0], id) {
        lemma_workload_index(workloads.drop_first(), id);
        assert forall|i: int| 0 <= i < workload_index(workloads, id) implies !is_workload(
            #[trigger] workloads[i],
            id,
        ) by {
            if i > 0 {
                assert(!is_workload(workloads.drop_first()[i - 1], id));
            }
        }
    }
}

/// Where a workload stands.
pub(crate) fn find_workload(workloads: &Vec<Workload>, id: &str) -> (at: Option<usize>)
    ensures
        match at {
            Some(i) => i < workloads@.len() && i == workload_index(workloads@, id@),
            None => workload_index(workloads@, id@) == workloads@.len(),
        },
{
    let mut i: usize = 0;
    proof {
        assert(workloads@.skip(0) =~= workloads@);
    }
    while i < workloads.len()
        invariant
            i <= workloads@.len(),
            workload_index(workloads@, id@) == i + workload_index(workloads@.skip(i as int), id@),
        decreases workloads@.len() - i,
    {
        proof {
            assert(workloads@.skip(i as int)[0] == workloads@[i as int]);
            assert(workloads@.skip(i as int).drop_first() =~= workloads@.skip(i as int + 1));
        }
        if text::str_eq(&workloads[i].workload_id.0, id) {
            return Some(i);
        }
        i += 1;
    }
    None
}

/// Whether no VM is registered twice.
pub open spec fn distinct(vms: Seq<FcVmEntry>) -> bool {
    forall|i: int, j: int|
        0 <= i < j < vms.len() ==> (#[trigger] vms[i]).instance.vm_id.0@ != (
        #[trigger] vms[j]).instance.vm_id.0@
}

/// Whether no workload occurs twice.
pub open spec fn distinct_workloads(workloads: Seq<Workload>) -> bool {
    forall|i: int, j: int|
        0 <= i < j < workloads.len() ==> (#[trigger] workloads[i]).workload_id.0@ != (
        #[trigger] workloads[j]).workload_id.0@
}

/// Whether the workloads of every VM can be told apart.
pub open spec fn workloads_told_apart(vms: Seq<FcVmEntry>) -> bool {
    forall|i: int| 0 <= i < vms.len() ==> distinct_workloads((#[trigger] vms[i]).workloads@)
}

/// Changing workloads, but not their names, keeps them distinct.
pub proof fn lemma_same_names(before: Seq<Workload>, after: Seq<Workload>)
    requires
        distinct_workloads(before),
        after.len() == before.len(),
        forall|k: int|
            0 <= k < after.len() ==> (#[trigger] after[k]).workload_id.0@
                == before[k].workload_id.0@,
    ensures
        distinct_workloads(after),
{
    assert forall|i: int, j: int| 0 <= i < j < after.len() implies (
    #[trigger] after[i]).workload_id.0@ != (#[trigger] after[j]).workload_id.0@ by {
        assert(before[i].workload_id.0@ != before[j].workload_id.0@);
    }
}

/// Changing an entry, but not whose it is, keeps the VMs distinct and where
/// they are, and the workloads apart if those of the entry are.
pub proof fn lemma_entry_updated(vms: Seq<FcVmEntry>, i: int, e: FcVmEntry)
    requires
        0 <= i < vms.len(),
        e.instance.vm_id.0@ == vms[i].instance.vm_id.0@,
    ensures
        distinct(vms) ==> distinct(vms.update(i, e)),
        workloads_told_apart(vms) && distinct_workloads(e.workloads@) ==> workloads_told_apart(
            vms.update(i, e),
        ),
        forall|id: Seq<char>| #[trigger] vm_index(vms.update(i, e), id) == vm_index(vms, id),
{
    let after = vms.update(i, e);
    assert forall|j: int| 0 <= j < vms.len() implies (#[trigger] after[j]).instance.vm_id.0@
        == vms[j].instance.vm_id.0@ by {}
    if distinct(vms) {
        assert forall|j: int, k: int| 0 <= j < k < after.len() implies (
        #[trigger] after[j]).instance.vm_id.0@ != (#[trigger] after[k]).instance.vm_id.0@ by {
            assert(vms[j].instance.vm_id.0@ != vms[k].instance.vm_id.0@);
        }
    }
    assert forall|id: Seq<char>| #[trigger] vm_index(after, id) == vm_index(vms, id) by {
        lemma_vm_index(vms, id);
        lemma_vm_index(after, id);
        let a = vm_index(vms, id) as int;
        let b = vm_index(after, id) as int;
        if a < b {
            assert(!is_vm(after[a], id));
        }
        if b < a {
            assert(!is_vm(vms[b], id));
        }
    }
}

/// Whether only the entries differ.
pub open spec fn only_vms(before: FirecrackerVmm, after: FirecrackerVmm) -> bool {
    after.assets_dir == before.assets_dir && after.work_dir == before.work_dir && after.next_cid
        == before.next_cid && after.activity == before.activity
}

/// The entry of a new VM.
pub open spec fn fresh_entry(e: FcVmEntry, i: VmInstance) -> bool {
    &&& e.instance == i
    &&& e.api_client.socket_path@ == i.socket_path@
    &&& e.has_process
    &&& e.workloads@.len() == 0
    &&& e.guest_conn is None
    &&& e.workloads_dir@ == text::path_joined(i.work_dir@, "workloads"@)
    &&& e.woken_at is None
    &&& !e.run_active
}

impl FcVmEntry {
    /// The entry of a new VM, whose process runs.
    pub fn new(instance: VmInstance) -> (e: FcVmEntry)
        ensures
            fresh_entry(e, instance),
    {
        let api_client = FcApiClient::new(&instance.socket_path);
        let workloads_dir = text::path_join(&instance.work_dir, "workloads");
        FcVmEntry {
            instance,
            api_client,
            has_process: true,
            workloads: Vec::new(),
            guest_conn: None,
            workloads_dir,
            woken_at: None,
            run_active: false,
        }
    }
}

/// What to do about a VM that was removed.
#[derive(Debug, Clone, Copy, PartialEq, Eq, Structural)]
pub enum DestroyStep {
    KillProcess,
    ReleaseNetwork,
    DetachVolume,
    RemoveDirectory,
}

/// What to do about a removed VM. None of it can fail the removal.
pub open spec fn destroy_steps(e: FcVmEntry) -> Seq<DestroyStep> {
    (if e.has_process {
        seq![DestroyStep::KillProcess]
    } else {
        seq![]
    }) + seq![
        DestroyStep::ReleaseNetwork,
        DestroyStep::DetachVolume,
        DestroyStep::RemoveDirectory,
    ]
}

impl FirecrackerVmm {
    /// Whether no VM is registered twice, no VM has a workload twice, and the
    /// activity is sound.
    pub open spec fn wf(self) -> bool {
        distinct(self.vms@) && workloads_told_apart(self.vms@) && self.activity.wf()
    }

    /// A host without VMs.
    pub fn new(assets_dir: &str, work_dir: &str) -> (v: FirecrackerVmm)
        ensures
            v.wf(),
            v.assets_dir@ == assets_dir@,
            v.work_dir@ == work_dir@,
            v.vms@.len() == 0,
            v.next_cid == FIRST_GUEST_CID,
            v.activity@ == Map::<Seq<char>, (nat, Option<u64>)>::empty(),
    {
        FirecrackerVmm {
            assets_dir: assets_dir.to_owned(),
            work_dir: work_dir.to_owned(),
            vms: Vec::new(),
            next_cid: FIRST_GUEST_CID,
            activity: ActivityTracker::new(),
        }
    }

    /// Where a VM's entry stands.
    pub(crate) fn find(&self, vm_id: &str) -> (at: Option<usize>)
        ensures
            match at {
                Some(i) => i < self.vms@.len() && i == vm_index(self.vms@, vm_id@) && is_vm(
                    self.vms@[i as int],
                    vm_id@,
                ),
                None => vm_index(self.vms@, vm_id@) == self.vms@.len(),
            },
    {
        let mut i: usize = 0;
        proof {
            assert(self.vms@.skip(0) =~= self.vms@);
        }
        while i < self.vms.len()
            invariant
                i <= self.vms@.len(),
                vm_index(self.vms@, vm_id@) == i + vm_index(self.vms@.skip(i as int), vm_id@),
            decreases self.vms@.len() - i,
        {
            proof {
                assert(self.vms@.skip(i as int)[0] == self.vms@[i as int]);
                assert(self.vms@.skip(i as int).drop_first() =~= self.vms@.skip(i as int + 1));
            }
            if text::str_eq(&self.vms[i].instance.vm_id.0, vm_id) {
                return Some(i);
            }
            i += 1;
        }
        None
    }

    /// The record of a VM, if it is registered.
    pub fn get_vm(&self, vm_id: &VmId) -> (vm: Option<&VmInstance>)
        ensures
            ({
                let i = vm_index(self.vms@, vm_id.0@) as int;
                match vm {
                    Some(instance) => i < self.vms@.len() && *instance == self.vms@[i].instance,
                    None => i == self.vms@.len(),
                }
            }),
    {
        match self.find(&vm_id.0) {
            Some(i) => Some(&self.vms[i].instance),
            None => None,
        }
    }

    /// The state of a VM, if it is registered.
    pub fn vm_state(&self, vm_id: &VmId) -> (state: Option<VmState>)
        ensures
            ({
                let i = vm_index(self.vms@, vm_id.0@) as int;
                state == if i < self.vms@.len() {
                    Some(self.vms@[i].instance.state)
                } else {
                    None
                }
            }),
    {
        match self.find(&vm_id.0) {
            Some(i) => Some(self.vms[i].instance.state),
            None => None,
        }
    }

    /// The records of all VMs.
    pub fn list_vms(&self) -> (vms: Vec<&VmInstance>)
        ensures
            vms@.len() == self.vms@.len(),
            forall|i: int| 0 <= i < vms@.len() ==> *(#[trigger] vms@[i]) == self.vms@[i].instance,
    {
        let mut vms: Vec<&VmInstance> = Vec::new();
        let mut i: usize = 0;
        while i < self.vms.len()
            invariant
                i <= self.vms@.len(),
                vms@.len() == i,
                forall|j: int| 0 <= j < i ==> *(#[trigger] vms@[j]) == self.vms@[j].instance,
            decreases self.vms@.len() - i,
        {
            vms.push(&self.vms[i].instance);
            i += 1;
        }
        vms
    }

    // -----------------------------------------------------------------------
    // Coming and going
    // -----------------------------------------------------------------------

    /// Begins the creation of a VM.
    pub fn create_vm(&self, config: VmConfig) -> (r: Result<Creation, Error>)
        ensures
            match r {
                Ok(c) => c.wf() && c.phase is Directory && crate::vmm::create::refusal(
                    config,
                ) is None && crate::vmm::vm::laid_out(
                    c.instance,
                    c.instance.vm_id.0@,
                    self.assets_dir@,
                    self.work_dir@,
                ) && crate::vmm::create::same_but_idle_check(config, c.instance.vm_config) && (
                if crate::vmm::create::takes_image_idle_check(config) {
                    text::views(c.instance.vm_config.auto_suspend->0.idle_check_cmd@) == seq![
                        crate::vmm::create::PG_IDLE_CHECK@,
                    ]
                } else {
                    c.instance.vm_config == config
                }) && exists|suffix: Seq<char>|
                    crate::vmm::utils::id_suffix(suffix) && c.instance.vm_id.0@ == "vm-"@
                        + text::decimal(config.project_id as nat) + "-"@ + suffix,
                Err(Error::Vmm(m)) => crate::vmm::create::refusal(config) == Some(m@),
                Err(Error::InvalidImage(image)) => crate::vmm::create::refusal(config) is None
                    && crate::vmm::vm::rootfs_of(config.image@) is None && image@ == config.image@,
                Err(_) => false,
            },
            r is Ok <==> crate::vmm::create::refusal(config) is None
                && crate::vmm::vm::rootfs_of(config.image@) is Some,
    {
        Creation::new(config, &self.assets_dir, &self.work_dir)
    }

    /// Hands out a vsock address.
    pub fn next_guest_cid(&mut self) -> (cid: u32)
        ensures
            cid == old(self).next_cid,
            final(self).next_cid == (if old(self).next_cid == u32::MAX {
                0
            } else {
                old(self).next_cid + 1
            }),
            final(self).vms == old(self).vms,
            final(self).activity == old(self).activity,
            final(self).assets_dir == old(self).assets_dir,
            final(self).work_dir == old(self).work_dir,
    {
        let cid = self.next_cid;
        self.next_cid = if cid == u32::MAX {
            0
        } else {
            cid + 1
        };
        cid
    }

    /// Registers a VM whose creation is complete.
    pub fn register(&mut self, creation: Creation) -> (vm_id: VmId)
        requires
            old(self).wf(),
            creation.wf(),
            creation.phase is Ready,
        ensures
            final(self).wf(),
            only_vms(*old(self), *final(self)),
            vm_id == creation.instance.vm_id,
            ({
                let i = vm_index(old(self).vms@, creation.instance.vm_id.0@) as int;
                let e = final(self).vms@[i];
                &&& fresh_entry(
                    e,
                    (VmInstance { state: VmState::Created, ..creation.instance }),
                )
                &&& final(self).vms@ == if i < old(self).vms@.len() {
                    old(self).vms@.update(i, e)
                } else {
                    old(self).vms@.push(e)
                }
            }),
    {
        let mut instance = creation.instance;
        let vm_id = instance.vm_id.clone();
        instance.state = VmState::Created;
        let entry = FcVmEntry::new(instance);
        proof {
            lemma_vm_index(self.vms@, vm_id.0@);
        }
        match self.find(&vm_id.0) {
            Some(i) => {
                proof {
                    lemma_entry_updated(self.vms@, i as int, entry);
                }
                self.vms.set(i, entry);
            },
            None => {
                let ghost before = self.vms@;
                self.vms.push(entry);
                proof {
                    let after = self.vms@;
                    assert forall|i: int, j: int| 0 <= i < j < after.len() implies (
                    #[trigger] after[i]).instance.vm_id.0@ != (
                    #[trigger] after[j]).instance.vm_id.0@ by {
                        assert(after[i] == before[i]);
                        if j < before.len() {
                            assert(after[j] == before[j]);
                        } else {
                            assert(!is_vm(before[i], vm_id.0@));
                        }
                    }
                }
            },
        }
        vm_id
    }

    /// Removes a VM, with all that is kept about it, whatever state it is in.
    /// The steps that the entry gives rise to are taken afterwards, and none
    /// of them can fail the removal.
    pub fn destroy_vm(&mut self, vm_id: &VmId) -> (r: Result<
        (FcVmEntry, Vec<DestroyStep>),
        Error,
    >)
        requires
            old(self).wf(),
        ensures
            final(self).wf(),
            final(self).assets_dir == old(self).assets_dir,
            final(self).work_dir == old(self).work_dir,
            final(self).next_cid == old(self).next_cid,
            ({
                let i = vm_index(old(self).vms@, vm_id.0@) as int;
                match r {
                    Ok((e, steps)) => i < old(self).vms@.len() && e == old(self).vms@[i]
                        && steps@ == destroy_steps(e) && final(self).vms@ == old(
                        self,
                    ).vms@.remove(i) && final(self).activity@ == old(self).activity@.remove(
                        vm_id.0@,
                    ),
                    Err(Error::VmNotFound(id)) => i == old(self).vms@.len() && id@ == vm_id.0@
                        && *final(self) == *old(self),
                    Err(_) => false,
                }
            }),
            r is Ok ==> vm_index(final(self).vms@, vm_id.0@) == final(self).vms@.len(),
    {
        match self.find(&vm_id.0) {
            None => Err(Error::VmNotFound(vm_id.0.clone())),
            Some(k) => {
                let ghost before = self.vms@;
                let entry = self.vms.remove(k);
                self.activity.clear(vm_id);
                proof {
                    let after = self.vms@;
                    lemma_vm_index(before, vm_id.0@);
                    lemma_vm_index(after, vm_id.0@);
                    assert forall|i: int| 0 <= i < after.len() implies !is_vm(
                        #[trigger] after[i],
                        vm_id.0@,
                    ) by {
                        assert(after[i] == before[if i < k { i } else { i + 1 }]);
                        if i < k {
                            assert(before[i].instance.vm_id.0@
                                != before[k as int].instance.vm_id.0@);
                        } else {
                            assert(before[k as int].instance.vm_id.0@
                                != before[i + 1].instance.vm_id.0@);
                        }
                    }
                    assert forall|i: int, j: int| 0 <= i < j < after.len() implies (
                    #[trigger] after[i]).instance.vm_id.0@ != (
                    #[trigger] after[j]).instance.vm_id.0@ by {
                        assert(after[i] == before[if i < k { i } else { i + 1 }]);
                        assert(after[j] == before[if j < k { j } else { j + 1 }]);
                    }
                }
                let mut steps: Vec<DestroyStep> = Vec::new();
                if entry.has_process {
                    steps.push(DestroyStep::KillProcess);
                }
                steps.push(DestroyStep::ReleaseNetwork);
                steps.push(DestroyStep::DetachVolume);
                steps.push(DestroyStep::RemoveDirectory);
                proof {
                    assert(steps@ =~= destroy_steps(entry));
                }
                Ok((entry, steps))
            },
        }
    }
}

} // verus!
