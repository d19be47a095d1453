//! What operations on VMs are for, stated of what Firecracker is told: a restore
//! loads what a snapshot stored, a machine is what was asked for, and idle VMs
//! are suspended.

use vstd::prelude::*;

use crate::error::Error;
use crate::json::{says, ValueView};
use crate::net::cidr::ip_text;
use crate::vmm::auto_suspend::{http_idle, may_suspend, passed};
use crate::vmm::firecracker::{FcVmEntry, FirecrackerVmm};
use crate::vmm::lifecycle;
use crate::vmm::lifecycle::{
    begun, fc_views, finished, plan_for, FcStepView, OpDone, OpPlan, Operation,
};
use crate::vmm::setup::{device_steps_of, disk_steps_of, SetupView};
use crate::vmm::state::VmState;
use crate::vmm::vm::VmInstance;
use crate::vmm::workload::WorkloadState;

verus! {

// ---------------------------------------------------------------------------
// Suspending and restoring
// ---------------------------------------------------------------------------

/// The names of the fields differ from one another.
proof fn lemma_snapshot_fields()
    ensures
        "snapshot_type"@ != "snapshot_path"@,
        "snapshot_type"@ != "mem_file_path"@,
        "snapshot_path"@ != "mem_file_path"@,
        "snapshot_path"@ != "enable_diff_snapshots"@,
        "snapshot_path"@ != "resume_vm"@,
        "mem_file_path"@ != "enable_diff_snapshots"@,
        "mem_file_path"@ != "resume_vm"@,
        "enable_diff_snapshots"@ != "resume_vm"@,
{
    reveal_strlit("snapshot_type");
    reveal_strlit("snapshot_path");
    reveal_strlit("mem_file_path");
    reveal_strlit("enable_diff_snapshots");
    reveal_strlit("resume_vm");
    assert("snapshot_type"@[9] == 't');
    assert("snapshot_path"@[9] == 'p');
    assert("snapshot_type"@[0] == 's');
    assert("snapshot_path"@[0] == 's');
    assert("mem_file_path"@[0] == 'm');
    assert("enable_diff_snapshots"@[0] == 'e');
    assert("resume_vm"@[0] == 'r');
}

/// Whether a step has Firecracker store a VM in the given files.
pub open spec fn stores(step: FcStepView, state_path: Seq<char>, mem_path: Seq<char>) -> bool {
    &&& step is Put
    &&& step->Put_path == "/snapshot/create"@
    &&& says(step->Put_fields, "snapshot_type"@, ValueView::Text("Full"@))
    &&& says(step->Put_fields, "snapshot_path"@, ValueView::Text(state_path))
    &&& says(step->Put_fields, "mem_file_path"@, ValueView::Text(mem_path))
}

/// Whether a step has Firecracker load a VM from the given files and run it.
pub open spec fn loads(step: FcStepView, state_path: Seq<char>, mem_path: Seq<char>) -> bool {
    &&& step is Put
    &&& step->Put_path == "/snapshot/load"@
    &&& says(step->Put_fields, "snapshot_path"@, ValueView::Text(state_path))
    &&& says(step->Put_fields, "mem_file_path"@, ValueView::Text(mem_path))
    &&& says(step->Put_fields, "enable_diff_snapshots"@, ValueView::Flag(false))
    &&& says(step->Put_fields, "resume_vm"@, ValueView::Flag(true))
}

/// Whether a step tells a VM to take the given state.
pub open spec fn tells(step: FcStepView, state: Seq<char>) -> bool {
    step is Patch && step->Patch_path == "/vm"@ && says(
        step->Patch_fields,
        "state"@,
        ValueView::Text(state),
    )
}

proof fn lemma_tells(state: Seq<char>)
    ensures
        tells(lifecycle::vm_patch(state), state),
{
    let step = lifecycle::vm_patch(state);
    assert(step->Patch_fields[0] == ("state"@, ValueView::Text(state)));
}

/// The plan of a snapshot pauses the VM, then stores its state and its memory in
/// two different files, and once that has succeeded stops the process and
/// removes its socket.
pub proof fn law_snapshot_stores_state_and_memory(plan: OpPlan, e: FcVmEntry, wall_now: u64)
    requires
        plan_for(plan, e, Operation::Snapshot, wall_now),
    ensures
        plan.snapshot is Some,
        plan.snapshot->0.created_at == wall_now,
        plan.snapshot->0.state_path@ != plan.snapshot->0.mem_path@,
        fc_views(plan.steps@).len() == 2,
        tells(fc_views(plan.steps@)[0], "Paused"@),
        stores(
            fc_views(plan.steps@)[1],
            plan.snapshot->0.state_path@,
            plan.snapshot->0.mem_path@,
        ),
        fc_views(plan.on_success@).contains(FcStepView::Kill),
        fc_views(plan.on_success@).contains(
            FcStepView::RemoveSocket { path: e.instance.socket_path@ },
        ),
        e.instance.state is Started ==> fc_views(plan.on_failure@).len() == 1 && tells(
            fc_views(plan.on_failure@)[0],
            "Resumed"@,
        ),
        e.instance.state is Paused ==> fc_views(plan.on_failure@).len() == 0,
{
    lemma_snapshot_fields();
    lemma_tells("Paused"@);
    lemma_tells("Resumed"@);
    let s = plan.snapshot->0;
    let put = fc_views(plan.steps@)[1];
    assert(put->Put_fields[0] == ("snapshot_type"@, ValueView::Text("Full"@)));
    assert(put->Put_fields[1] == ("snapshot_path"@, ValueView::Text(s.state_path@)));
    assert(put->Put_fields[2] == ("mem_file_path"@, ValueView::Text(s.mem_path@)));
    assert(fc_views(plan.on_success@)[0] == FcStepView::Kill);
    assert(fc_views(plan.on_success@)[1] == FcStepView::RemoveSocket {
        path: e.instance.socket_path@,
    });
    let id = e.instance.vm_id.0@;
    reveal_strlit("_snapshot.state");
    reveal_strlit("_snapshot.mem");
    reveal_strlit("/");
    assert("_snapshot.state"@.last() == 'e');
    assert("_snapshot.mem"@.last() == 'm');
    assert(s.state_path@.last() == 'e');
    assert(s.mem_path@.last() == 'm');
}

/// The plan of a restore starts a process, has it load the VM's own snapshot and
/// run it, and waits until it runs.
pub proof fn law_restore_loads_snapshot(plan: OpPlan, e: FcVmEntry, wall_now: u64)
    requires
        plan_for(plan, e, Operation::Restore, wall_now),
        e.instance.snapshot is Some,
    ensures
        fc_views(plan.steps@).len() == 3,
        fc_views(plan.steps@)[0] is Spawn,
        loads(
            fc_views(plan.steps@)[1],
            e.instance.snapshot->0.state_path@,
            e.instance.snapshot->0.mem_path@,
        ),
        fc_views(plan.steps@)[2] is AwaitRunning,
        fc_views(plan.on_success@).len() == 0,
        fc_views(plan.on_failure@).contains(FcStepView::Kill),
{
    lemma_snapshot_fields();
    let s = e.instance.snapshot->0;
    let put = fc_views(plan.steps@)[1];
    assert(put->Put_fields[0] == ("snapshot_path"@, ValueView::Text(s.state_path@)));
    assert(put->Put_fields[1] == ("mem_file_path"@, ValueView::Text(s.mem_path@)));
    assert(put->Put_fields[2] == ("enable_diff_snapshots"@, ValueView::Flag(false)));
    assert(put->Put_fields[3] == ("resume_vm"@, ValueView::Flag(true)));
    assert(fc_views(plan.on_failure@)[0] == FcStepView::Kill);
}

/// A VM that was suspended comes back from what was stored: a snapshot that
/// succeeds leaves the VM suspended and without a process, restoring it is then
/// not refused, and the restore loads the very files that the snapshot stored,
/// each as what it is.
pub proof fn law_restore_loads_what_snapshot_stored(
    v0: FirecrackerVmm,
    v1: FirecrackerVmm,
    v2: FirecrackerVmm,
    v3: FirecrackerVmm,
    vm_id: Seq<char>,
    wall_now: u64,
    now: u64,
    suspend: OpPlan,
    done: Result<OpDone, Error>,
    restore: Result<OpPlan, Error>,
)
    requires
        begun(v0, v1, vm_id, Operation::Snapshot, wall_now, Ok(suspend)),
        finished(v1, v2, suspend, Ok(()), now, done),
        begun(v2, v3, vm_id, Operation::Restore, 0, restore),
    ensures
        done is Ok,
        done->Ok_0.snapshot == suspend.snapshot,
        restore is Ok,
        restore->Ok_0.vm_id.0@ == vm_id,
        ({
            let s = suspend.snapshot->0;
            &&& suspend.snapshot is Some
            &&& fc_views(suspend.steps@).len() == 2
            &&& stores(fc_views(suspend.steps@)[1], s.state_path@, s.mem_path@)
            &&& fc_views(restore->Ok_0.steps@).len() == 3
            &&& loads(fc_views(restore->Ok_0.steps@)[1], s.state_path@, s.mem_path@)
            &&& s.state_path@ != s.mem_path@
        }),
        ({
            let i = crate::vmm::firecracker::vm_index(v0.vms@, vm_id) as int;
            &&& v2.vms@[i].instance.state is Suspended
            &&& !v2.vms@[i].has_process
            &&& v2.vms@[i].instance.snapshot == suspend.snapshot
        }),
{
    let i = crate::vmm::firecracker::vm_index(v0.vms@, vm_id) as int;
    let e = v0.vms@[i];
    crate::vmm::firecracker::lemma_vm_index(v0.vms@, vm_id);
    crate::vmm::firecracker::lemma_entry_updated(
        v0.vms@,
        i,
        lifecycle::in_state(e, VmState::Suspending),
    );
    assert(v1.vms@[i] == lifecycle::in_state(e, VmState::Suspending));
    let asleep = lifecycle::completed(v1.vms@[i], Operation::Snapshot, suspend.snapshot, now);
    crate::vmm::firecracker::lemma_entry_updated(v1.vms@, i, asleep);
    assert(v2.vms@[i] == asleep);
    law_snapshot_stores_state_and_memory(suspend, e, wall_now);
    crate::vmm::firecracker::lemma_vm_index(v2.vms@, vm_id);
    assert(lifecycle::op_refusal(asleep, Operation::Restore) is None);
    law_restore_loads_snapshot(restore->Ok_0, asleep, 0);
}

/// Starting tells Firecracker to start the instance and waits until it runs;
/// pausing tells it to pause and resuming to go on. Each only ever tells the VM
/// that it was asked of.
pub proof fn law_operations_tell_firecracker(
    plan: OpPlan,
    e: FcVmEntry,
    op: Operation,
    wall_now: u64,
)
    requires
        plan_for(plan, e, op, wall_now),
    ensures
        plan.vm_id.0@ == e.instance.vm_id.0@,
        op is Start ==> ({
            let first = fc_views(plan.steps@)[0];
            &&& fc_views(plan.steps@).len() == 2
            &&& first is Put
            &&& first->Put_path == "/actions"@
            &&& says(first->Put_fields, "action_type"@, ValueView::Text("InstanceStart"@))
            &&& fc_views(plan.steps@)[1] is AwaitRunning
        }),
        op is Pause ==> fc_views(plan.steps@).len() == 1 && tells(
            fc_views(plan.steps@)[0],
            "Paused"@,
        ),
        op is Resume ==> fc_views(plan.steps@).len() == 1 && tells(
            fc_views(plan.steps@)[0],
            "Resumed"@,
        ),
        op is Start || op is Pause || op is Resume ==> fc_views(plan.on_success@).len() == 0
            && fc_views(plan.on_failure@).len() == 0,
{
    lemma_tells("Paused"@);
    lemma_tells("Resumed"@);
    if op is Start {
        let first = fc_views(plan.steps@)[0];
        assert(first->Put_fields[0] == ("action_type"@, ValueView::Text("InstanceStart"@)));
    }
}

/// What an operation that succeeds leaves a VM in: started, paused, resumed,
/// suspended or restored; and which operations may begin where.
pub proof fn law_operations_lead_where_they_say(e: FcVmEntry, op: Operation, now: u64)
    ensures
        lifecycle::completed(e, op, e.instance.snapshot, now).instance.state == match op {
            Operation::Start => VmState::Started,
            Operation::Pause => VmState::Paused,
            Operation::Resume => VmState::Started,
            Operation::Snapshot => VmState::Suspended,
            Operation::Restore => VmState::Started,
        },
        lifecycle::op_refusal(e, op) is None <==> match op {
            Operation::Start => e.instance.state is Created,
            Operation::Pause => e.instance.state is Started,
            Operation::Resume => e.instance.state is Paused,
            Operation::Snapshot => e.instance.state is Started || e.instance.state is Paused,
            Operation::Restore => e.instance.state is Suspended && e.instance.snapshot is Some,
        },
        op is Start || op is Restore ==> lifecycle::completed(
            e,
            op,
            e.instance.snapshot,
            now,
        ).woken_at == Some(now),
{
}

/// A VM that has come up is looked at for idleness exactly if it has a policy
/// with an idle check; no other operation sets a detector up.
pub proof fn law_detector_is_armed_when_up(
    before: FirecrackerVmm,
    after: FirecrackerVmm,
    plan: OpPlan,
    now: u64,
    done: OpDone,
)
    requires
        finished(before, after, plan, Ok(()), now, Ok(done)),
        crate::vmm::firecracker::vm_index(before.vms@, plan.vm_id.0@) < before.vms@.len(),
    ensures
        ({
            let i = crate::vmm::firecracker::vm_index(before.vms@, plan.vm_id.0@) as int;
            let policy = before.vms@[i].instance.vm_config.auto_suspend;
            done.arm_detector <==> (plan.op is Start || plan.op is Restore) && policy is Some
                && policy->0.idle_check_cmd@.len() > 0
        }),
{
}

/// An operation moves a VM's state and nothing else while it is in flight.
pub proof fn law_operation_in_flight_changes_state_only(
    before: FirecrackerVmm,
    meanwhile: FirecrackerVmm,
    vm_id: Seq<char>,
    op: Operation,
    wall_now: u64,
    plan: OpPlan,
    k: int,
)
    requires
        begun(before, meanwhile, vm_id, op, wall_now, Ok(plan)),
        0 <= k < before.vms@.len(),
    ensures
        meanwhile.vms@.len() == before.vms@.len(),
        ({
            let i = crate::vmm::firecracker::vm_index(before.vms@, vm_id) as int;
            let b = before.vms@[k];
            let m = meanwhile.vms@[k];
            &&& k != i ==> m == b
            &&& m == (FcVmEntry {
                instance: VmInstance { state: m.instance.state, ..b.instance },
                ..b
            })
            &&& k == i ==> m.instance.state == match op {
                Operation::Start => VmState::Starting,
                Operation::Pause => VmState::Pausing,
                Operation::Resume => VmState::Resuming,
                Operation::Snapshot => VmState::Suspending,
                Operation::Restore => VmState::Restoring,
            }
        }),
{
    crate::vmm::firecracker::lemma_vm_index(before.vms@, vm_id);
}

// ---------------------------------------------------------------------------
// Auto-suspend
// ---------------------------------------------------------------------------

/// Time passes as it does: `secs` have passed exactly when the later time is at
/// least that many seconds after the earlier one.
pub proof fn law_time_passes(since: u64, now: u64, secs: u64)
    ensures
        now >= since ==> (passed(since, now, secs) <==> now >= since + secs * 1000),
        now < since ==> (passed(since, now, secs) <==> secs == 0),
{
}

/// A VM is let through to be suspended if nothing speaks against it: it is
/// started and permanent and has a policy, no workload of it is starting or
/// running, no request is in flight to it, and it was not woken within its idle
/// timeout. Whatever else it is makes no difference.
pub proof fn law_idle_vm_is_let_through(e: FcVmEntry, in_flight: nat, now: u64)
    requires
        e.instance.state is Started,
        e.instance.vm_config.mode is Permanent,
        e.instance.vm_config.auto_suspend is Some,
        forall|k: int|
            0 <= k < e.workloads@.len() ==> !((#[trigger] e.workloads@[k]).state
                == WorkloadState::Starting) && !(e.workloads@[k].state == WorkloadState::Running),
        in_flight == 0,
        e.woken_at is Some ==> now >= e.woken_at->0
            + e.instance.vm_config.auto_suspend->0.idle_timeout_secs * 1000,
    ensures
        may_suspend(e, in_flight, now),
{
}

/// What the HTTP detector reports as idle is let through, if it is started and
/// permanent and has neither an active workload nor a request in flight: a VM
/// that exposes a port is suspended once it was idle for its timeout.
pub proof fn law_http_idle_vm_is_suspended(
    e: FcVmEntry,
    last_request: Option<u64>,
    in_flight: nat,
    now: u64,
)
    requires
        http_idle(e, last_request, now),
        e.instance.state is Started,
        e.instance.vm_config.mode is Permanent,
        forall|k: int|
            0 <= k < e.workloads@.len() ==> !((#[trigger] e.workloads@[k]).state
                == WorkloadState::Starting) && !(e.workloads@[k].state == WorkloadState::Running),
        in_flight == 0,
    ensures
        may_suspend(e, in_flight, now),
{
}

/// The HTTP detector reports a VM with a policy and an exposed port as idle
/// exactly when its idle timeout has passed both since its last request and
/// since it was woken, as far as there were any, and there was one.
pub proof fn law_http_detector_goes_by_timeout(
    e: FcVmEntry,
    last_request: Option<u64>,
    now: u64,
)
    requires
        e.instance.vm_config.auto_suspend is Some,
        e.instance.vm_config.network_config.exposed_ports@.len() > 0,
        last_request is Some ==> now >= last_request->0,
        e.woken_at is Some ==> now >= e.woken_at->0,
    ensures
        ({
            let timeout = e.instance.vm_config.auto_suspend->0.idle_timeout_secs * 1000;
            http_idle(e, last_request, now) <==> (last_request is Some || e.woken_at is Some) && (
            last_request is Some ==> now - last_request->0 >= timeout) && (e.woken_at is Some
                ==> now - e.woken_at->0 >= timeout)
        }),
{
}

// ---------------------------------------------------------------------------
// Setting up
// ---------------------------------------------------------------------------

/// Whether a step puts an object to the given path of the API.
pub open spec fn puts_to(step: SetupView, path: Seq<char>) -> bool {
    step is Put && step->Put_path == path
}

/// What a VM is set up by.
pub open spec fn whole_setup(i: VmInstance) -> Seq<SetupView> {
    disk_steps_of(i) + device_steps_of(i)
}

/// The paths of the API differ from one another.
proof fn lemma_setup_paths()
    ensures
        "/boot-source"@ != "/machine-config"@,
        "/boot-source"@ != "/serial"@,
        "/boot-source"@ != "/vsock"@,
        "/boot-source"@ != "/network-interfaces/eth0"@,
        "/machine-config"@ != "/serial"@,
        "/machine-config"@ != "/vsock"@,
        "/machine-config"@ != "/network-interfaces/eth0"@,
        "/serial"@ != "/vsock"@,
        "/serial"@ != "/network-interfaces/eth0"@,
        "/vsock"@ != "/network-interfaces/eth0"@,
        forall|id: Seq<char>|
            {
                &&& (#[trigger] ("/drives/"@ + id)) != "/boot-source"@
                &&& "/drives/"@ + id != "/machine-config"@
                &&& "/drives/"@ + id != "/serial"@
                &&& "/drives/"@ + id != "/vsock"@
                &&& "/drives/"@ + id != "/network-interfaces/eth0"@
            },
{
    reveal_strlit("/boot-source");
    reveal_strlit("/machine-config");
    reveal_strlit("/serial");
    reveal_strlit("/vsock");
    reveal_strlit("/network-interfaces/eth0");
    reveal_strlit("/drives/");
    assert("/boot-source"@[1] == 'b');
    assert("/machine-config"@[1] == 'm');
    assert("/serial"@[1] == 's');
    assert("/vsock"@[1] == 'v');
    assert("/network-interfaces/eth0"@[1] == 'n');
    assert("/drives/"@[1] == 'd');
    assert forall|id: Seq<char>|
        {
            &&& (#[trigger] ("/drives/"@ + id)) != "/boot-source"@
            &&& "/drives/"@ + id != "/machine-config"@
            &&& "/drives/"@ + id != "/serial"@
            &&& "/drives/"@ + id != "/vsock"@
            &&& "/drives/"@ + id != "/network-interfaces/eth0"@
        } by {
        assert(("/drives/"@ + id)[1] == 'd');
    }
}

proof fn lemma_drive_paths()
    ensures
        "/drives/"@ + "rootfs"@ != "/drives/"@ + "overlay"@,
        "/drives/"@ + "rootfs"@ != "/drives/"@ + "data"@,
        "/drives/"@ + "overlay"@ != "/drives/"@ + "data"@,
{
    reveal_strlit("/drives/");
    reveal_strlit("rootfs");
    reveal_strlit("overlay");
    reveal_strlit("data");
    assert(("/drives/"@ + "rootfs"@)[8] == 'r');
    assert(("/drives/"@ + "overlay"@)[8] == 'o');
    assert(("/drives/"@ + "data"@)[8] == 'd');
}

proof fn lemma_machine_fields()
    ensures
        "vcpu_count"@ != "mem_size_mib"@,
        "vcpu_count"@ != "smt"@,
        "vcpu_count"@ != "track_dirty_pages"@,
        "vcpu_count"@ != "huge_pages"@,
        "mem_size_mib"@ != "smt"@,
        "mem_size_mib"@ != "track_dirty_pages"@,
        "mem_size_mib"@ != "huge_pages"@,
{
    reveal_strlit("vcpu_count");
    reveal_strlit("mem_size_mib");
    reveal_strlit("smt");
    reveal_strlit("track_dirty_pages");
    reveal_strlit("huge_pages");
    assert("vcpu_count"@[0] == 'v');
    assert("mem_size_mib"@[0] == 'm');
    assert("smt"@[0] == 's');
    assert("track_dirty_pages"@[0] == 't');
    assert("huge_pages"@[0] == 'h');
}

/// The machine is as it was asked for: exactly one object is put to
/// `/machine-config`, and it gives the VM the processors and the memory of its
/// configuration.
pub proof fn law_machine_is_as_asked_for(i: VmInstance, k: int)
    requires
        0 <= k < whole_setup(i).len(),
    ensures
        whole_setup(i).len() > 1,
        puts_to(whole_setup(i)[k], "/machine-config"@) <==> k == 1,
        k == 1 ==> says(
            whole_setup(i)[k]->Put_fields,
            "vcpu_count"@,
            ValueView::Number(i.vm_config.cpus as nat),
        ) && says(
            whole_setup(i)[k]->Put_fields,
            "mem_size_mib"@,
            ValueView::Number(i.vm_config.memory_mb as nat),
        ),
{
    lemma_setup_paths();
    lemma_machine_fields();
    let fields = whole_setup(i)[1]->Put_fields;
    assert(whole_setup(i)[1] == disk_steps_of(i)[1]);
    assert(fields[0] == ("vcpu_count"@, ValueView::Number(i.vm_config.cpus as nat)));
    assert(fields[1] == ("mem_size_mib"@, ValueView::Number(i.vm_config.memory_mb as nat)));
}

proof fn lemma_boot_fields()
    ensures
        "kernel_image_path"@ != "boot_args"@,
        "kernel_image_path"@ != "initrd_path"@,
        "boot_args"@ != "initrd_path"@,
{
    reveal_strlit("kernel_image_path");
    reveal_strlit("boot_args");
    reveal_strlit("initrd_path");
    assert("kernel_image_path"@[0] == 'k');
    assert("boot_args"@[0] == 'b');
    assert("initrd_path"@[0] == 'i');
}

/// A VM boots its own kernel and initramfs: exactly one object is put to
/// `/boot-source`. A VM with a network boots with its address, its gateway and
/// the netmask of its subnet on its kernel's command line, behind its own
/// arguments; one without with those alone.
pub proof fn law_vm_boots_its_kernel(i: VmInstance, k: int)
    requires
        0 <= k < whole_setup(i).len(),
    ensures
        puts_to(whole_setup(i)[k], "/boot-source"@) <==> k == 0,
        k == 0 ==> ({
            let fields = whole_setup(i)[k]->Put_fields;
            &&& says(fields, "kernel_image_path"@, ValueView::Text(i.kernel_path@))
            &&& says(fields, "initrd_path"@, ValueView::Text(i.initramfs_path@))
            &&& i.net is None ==> says(fields, "boot_args"@, ValueView::Text(i.boot_args@))
            &&& i.net is Some ==> says(
                fields,
                "boot_args"@,
                ValueView::Text(
                    i.boot_args@ + " ip="@ + ip_text(i.net->0.guest_ip) + "::"@ + ip_text(
                        i.net->0.gateway_ip,
                    ) + ":"@ + ip_text(
                        crate::net::cidr::Ipv4Addr {
                            bits: (0x1_0000_0000 - vstd::arithmetic::power2::pow2(
                                (32 - i.net->0.subnet.prefix) as nat,
                            )) as u32,
                        },
                    ) + "::eth0:off"@,
                ),
            )
        }),
{
    lemma_setup_paths();
    lemma_boot_fields();
    let fields = whole_setup(i)[0]->Put_fields;
    assert(whole_setup(i)[0] == disk_steps_of(i)[0]);
    assert(fields[0] == ("kernel_image_path"@, ValueView::Text(i.kernel_path@)));
    assert(fields[1].0 == "boot_args"@);
    assert(fields[2] == ("initrd_path"@, ValueView::Text(i.initramfs_path@)));
}

proof fn lemma_drive_fields()
    ensures
        "drive_id"@ != "path_on_host"@,
        "drive_id"@ != "is_root_device"@,
        "drive_id"@ != "is_read_only"@,
        "drive_id"@ != "cache_type"@,
        "drive_id"@ != "io_engine"@,
        "path_on_host"@ != "is_root_device"@,
        "path_on_host"@ != "is_read_only"@,
        "path_on_host"@ != "cache_type"@,
        "path_on_host"@ != "io_engine"@,
        "is_root_device"@ != "is_read_only"@,
        "is_root_device"@ != "cache_type"@,
        "is_root_device"@ != "io_engine"@,
        "is_read_only"@ != "cache_type"@,
        "is_read_only"@ != "io_engine"@,
{
    reveal_strlit("drive_id");
    reveal_strlit("path_on_host");
    reveal_strlit("is_root_device");
    reveal_strlit("is_read_only");
    reveal_strlit("cache_type");
    reveal_strlit("io_engine");
    assert("drive_id"@[0] == 'd');
    assert("path_on_host"@[0] == 'p');
    assert("is_root_device"@.len() == 14);
    assert("is_read_only"@.len() == 12);
    assert("is_root_device"@[1] == 's');
    assert("is_read_only"@[1] == 's');
    assert("cache_type"@[0] == 'c');
    assert("io_engine"@[1] == 'o');
    assert("io_engine"@[0] == 'i');
    assert("is_root_device"@[0] == 'i');
    assert("is_read_only"@[0] == 'i');
}

/// Whether a step attaches a file or device as the drive of the given name.
pub open spec fn attaches(
    step: SetupView,
    drive_id: Seq<char>,
    path: Seq<char>,
    root: bool,
) -> bool {
    &&& puts_to(step, "/drives/"@ + drive_id)
    &&& says(step->Put_fields, "drive_id"@, ValueView::Text(drive_id))
    &&& says(step->Put_fields, "path_on_host"@, ValueView::Text(path))
    &&& says(step->Put_fields, "is_root_device"@, ValueView::Flag(root))
    &&& says(step->Put_fields, "is_read_only"@, ValueView::Flag(root))
}

proof fn lemma_attaches(drive_id: Seq<char>, path: Seq<char>, root: bool)
    ensures
        attaches(crate::vmm::setup::put_drive_of(drive_id, path, root), drive_id, path, root),
{
    lemma_drive_fields();
    let fields = crate::vmm::setup::drive_of(drive_id, path, root);
    assert(fields[0] == ("drive_id"@, ValueView::Text(drive_id)));
    assert(fields[1] == ("path_on_host"@, ValueView::Text(path)));
    assert(fields[2] == ("is_root_device"@, ValueView::Flag(root)));
    assert(fields[3] == ("is_read_only"@, ValueView::Flag(root)));
}

/// Where the overlay drive is attached in a VM's setup.
pub open spec fn overlay_at(i: VmInstance) -> int {
    if crate::vmm::setup::seed_of(i) is Some {
        5
    } else {
        4
    }
}

/// The drives, in the order of the guest's device names: the root file system
/// that VMs share is attached first, as the root device and read-only, so that
/// no VM can change it; then the VM's own disk, which was created with the size
/// asked for before, and filled if there is something to put on it; then its
/// volume, if it has one. Only the first is read-only, and no other drive is
/// attached.
pub proof fn law_drives_are_attached(i: VmInstance)
    ensures
        ({
            let steps = whole_setup(i);
            let at = overlay_at(i);
            &&& attaches(steps[2], "rootfs"@, i.rootfs_path@, true)
            &&& steps[3] is CreateDisk
            &&& steps[3]->CreateDisk_path == i.overlay_disk@
            &&& steps[3]->size_bytes == i.vm_config.disk_size_mb * 1048576
            &&& steps[3]->mkfs.len() > 1
            &&& steps[3]->mkfs[0] == "mkfs.ext4"@
            &&& steps[3]->mkfs.last() == i.overlay_disk@
            &&& at == 5 ==> steps[4] is Seed
            &&& at < steps.len()
            &&& attaches(steps[at], "overlay"@, i.overlay_disk@, false)
            &&& i.block_device is Some ==> at + 1 < steps.len() && attaches(
                steps[at + 1],
                "data"@,
                i.block_device->0@,
                false,
            )
            &&& forall|k: int, id: Seq<char>|
                0 <= k < steps.len() && #[trigger] puts_to(steps[k], "/drives/"@ + id) ==> k == 2
                    || k == at || (k == at + 1 && i.block_device is Some)
            &&& forall|k: int|
                #![trigger steps[k]]
                0 <= k < steps.len() ==> {
                    &&& puts_to(steps[k], "/drives/"@ + "rootfs"@) <==> k == 2
                    &&& puts_to(steps[k], "/drives/"@ + "overlay"@) <==> k == at
                    &&& puts_to(steps[k], "/drives/"@ + "data"@) <==> k == at + 1
                        && i.block_device is Some
                }
        }),
{
    lemma_setup_paths();
    let steps = whole_setup(i);
    let disks = disk_steps_of(i);
    let at = overlay_at(i);
    lemma_attaches("rootfs"@, i.rootfs_path@, true);
    lemma_attaches("overlay"@, i.overlay_disk@, false);
    assert(steps[2] == disks[2]);
    assert(steps[3] == disks[3]);
    assert(steps[at] == disks[at]);
    if i.block_device is Some {
        lemma_attaches("data"@, i.block_device->0@, false);
        assert(steps[at + 1] == disks[at + 1]);
    }
    assert(i.vm_config.disk_size_mb as nat * 1024 * 1024 == i.vm_config.disk_size_mb * 1048576);
    assert forall|k: int, id: Seq<char>|
        0 <= k < steps.len() && #[trigger] puts_to(steps[k], "/drives/"@ + id) implies k == 2 || k
        == at || (k == at + 1 && i.block_device is Some) by {
        if k >= disks.len() {
            assert(steps[k] == device_steps_of(i)[k - disks.len()]);
        } else {
            assert(steps[k] == disks[k]);
        }
    }
    lemma_drive_paths();
    assert forall|k: int|
        #![trigger steps[k]]
        0 <= k < steps.len() implies {
        &&& puts_to(steps[k], "/drives/"@ + "rootfs"@) <==> k == 2
        &&& puts_to(steps[k], "/drives/"@ + "overlay"@) <==> k == at
        &&& puts_to(steps[k], "/drives/"@ + "data"@) <==> k == at + 1 && i.block_device is Some
    } by {
        if puts_to(steps[k], "/drives/"@ + "rootfs"@) {
            assert(k == 2 || k == at || (k == at + 1 && i.block_device is Some));
        }
        if puts_to(steps[k], "/drives/"@ + "overlay"@) {
            assert(k == 2 || k == at || (k == at + 1 && i.block_device is Some));
        }
        if puts_to(steps[k], "/drives/"@ + "data"@) {
            assert(k == 2 || k == at || (k == at + 1 && i.block_device is Some));
        }
    }
}

proof fn lemma_device_fields()
    ensures
        "vsock_id"@ != "guest_cid"@,
        "vsock_id"@ != "uds_path"@,
        "guest_cid"@ != "uds_path"@,
        "iface_id"@ != "guest_mac"@,
        "iface_id"@ != "host_dev_name"@,
        "guest_mac"@ != "host_dev_name"@,
{
    reveal_strlit("vsock_id");
    reveal_strlit("guest_cid");
    reveal_strlit("uds_path");
    reveal_strlit("iface_id");
    reveal_strlit("guest_mac");
    reveal_strlit("host_dev_name");
    assert("vsock_id"@[0] == 'v');
    assert("guest_cid"@[0] == 'g');
    assert("uds_path"@[0] == 'u');
    assert("iface_id"@[0] == 'i');
    assert("guest_mac"@[0] == 'g');
    assert("host_dev_name"@[0] == 'h');
}

/// A VM with a network and a vsock address gets its console into its own log,
/// its control channel at its own socket and with its own address, and a network
/// interface with its own MAC address on its own TAP, each once; and its setup
/// fails nowhere by itself.
pub proof fn law_devices_are_the_vms_own(i: VmInstance)
    requires
        i.net is Some,
        i.guest_cid is Some,
    ensures
        ({
            let steps = whole_setup(i);
            let n = steps.len() as int;
            &&& n >= 3
            &&& puts_to(steps[n - 3], "/serial"@)
            &&& says(
                steps[n - 3]->Put_fields,
                "serial_out_path"@,
                ValueView::Text(i.serial_log@),
            )
            &&& puts_to(steps[n - 2], "/vsock"@)
            &&& says(steps[n - 2]->Put_fields, "vsock_id"@, ValueView::Text("vsock0"@))
            &&& says(
                steps[n - 2]->Put_fields,
                "guest_cid"@,
                ValueView::Number(i.guest_cid->0 as nat),
            )
            &&& says(
                steps[n - 2]->Put_fields,
                "uds_path"@,
                ValueView::Text(i.vsock_uds_path@),
            )
            &&& puts_to(steps[n - 1], "/network-interfaces/eth0"@)
            &&& says(steps[n - 1]->Put_fields, "iface_id"@, ValueView::Text("eth0"@))
            &&& says(
                steps[n - 1]->Put_fields,
                "guest_mac"@,
                ValueView::Text(i.net->0.guest_mac@),
            )
            &&& says(
                steps[n - 1]->Put_fields,
                "host_dev_name"@,
                ValueView::Text(i.net->0.tap_name.0@),
            )
            &&& forall|k: int|
                0 <= k < n ==> #[trigger] steps[k] is Put || steps[k] is CreateDisk
                    || steps[k] is Seed
        }),
{
    lemma_device_fields();
    let devices = device_steps_of(i);
    let steps = whole_setup(i);
    let n = steps.len() as int;
    assert(devices.len() == 3);
    assert(steps[n - 3] == devices[0]);
    assert(steps[n - 2] == devices[1]);
    assert(steps[n - 1] == devices[2]);
    assert(devices[0]->Put_fields[0] == ("serial_out_path"@, ValueView::Text(i.serial_log@)));
    let v = devices[1]->Put_fields;
    assert(v[0] == ("vsock_id"@, ValueView::Text("vsock0"@)));
    assert(v[1] == ("guest_cid"@, ValueView::Number(i.guest_cid->0 as nat)));
    assert(v[2] == ("uds_path"@, ValueView::Text(i.vsock_uds_path@)));
    let f = devices[2]->Put_fields;
    assert(f[0] == ("iface_id"@, ValueView::Text("eth0"@)));
    assert(f[1] == ("guest_mac"@, ValueView::Text(i.net->0.guest_mac@)));
    assert(f[2] == ("host_dev_name"@, ValueView::Text(i.net->0.tap_name.0@)));
}

} // verus!
