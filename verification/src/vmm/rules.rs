//! What requests are taken, what files VMs have, what their creation and removal
//! go through and what becomes of their workloads: the rules in plain terms.

use vstd::prelude::*;

use crate::storage::laws::{lemma_last_component, no_slash};
use crate::text;
use crate::vmm::create;
use crate::vmm::create::{following, recorded, refusal, undo_of, CreateEvent, CreatePhase, UndoStep};
use crate::vmm::firecracker::{destroy_steps, DestroyStep, FcVmEntry, FirecrackerVmm};
use crate::vmm::schedule::{cron_refusal, normalized};
use crate::vmm::state::{legal, VmState};
use crate::vmm::vm::{
    laid_out, rootfs_of, vm_file, BlockStorageConfig, VmConfig, VmInstance, VmSnapshot,
};
use crate::vmm::workload::{active, exited, failed, running, Workload, WorkloadState};

verus! {

// ---------------------------------------------------------------------------
// The state machine
// ---------------------------------------------------------------------------

/// The moves of a VM, all of them: each operation leads from where it may begin
/// through its own transitional state to where it ends, or back.
pub proof fn law_moves_of_a_vm(from: VmState, to: VmState)
    ensures
        legal(from, to) <==> match (from, to) {
            (VmState::Creating, VmState::Created) => true,
            (VmState::Creating, VmState::Destroyed) => true,
            (VmState::Created, VmState::Starting) => true,
            (VmState::Starting, VmState::Started) => true,
            (VmState::Starting, VmState::Created) => true,
            (VmState::Started, VmState::Pausing) => true,
            (VmState::Pausing, VmState::Paused) => true,
            (VmState::Pausing, VmState::Started) => true,
            (VmState::Paused, VmState::Resuming) => true,
            (VmState::Resuming, VmState::Started) => true,
            (VmState::Resuming, VmState::Paused) => true,
            (VmState::Started, VmState::Suspending) => true,
            (VmState::Paused, VmState::Suspending) => true,
            (VmState::Suspending, VmState::Suspended) => true,
            (VmState::Suspending, VmState::Started) => true,
            (VmState::Suspending, VmState::Paused) => true,
            (VmState::Suspended, VmState::Restoring) => true,
            (VmState::Restoring, VmState::Started) => true,
            (VmState::Restoring, VmState::Suspended) => true,
            (VmState::Created, VmState::Destroying) => true,
            (VmState::Started, VmState::Destroying) => true,
            (VmState::Paused, VmState::Destroying) => true,
            (VmState::Suspended, VmState::Destroying) => true,
            (VmState::Destroying, VmState::Destroyed) => true,
            _ => false,
        },
{
}

// ---------------------------------------------------------------------------
// Requests
// ---------------------------------------------------------------------------

/// A block volume is taken exactly if it has at least 128 MiB, chunks of one of
/// the five sizes if it says any, and a mount point that is absolute and made of
/// lower-case letters, digits and `/-_.` if it names one.
pub proof fn law_volumes_that_are_taken(bs: BlockStorageConfig)
    ensures
        create::volume_refusal(bs) is None <==> bs.size_mb >= 128 && (bs.chunk_kb is Some ==> (
        bs.chunk_kb->0 == 256 || bs.chunk_kb->0 == 512 || bs.chunk_kb->0 == 1024 || bs.chunk_kb->0
            == 2048 || bs.chunk_kb->0 == 4096)) && (bs.mount_path@.len() > 0 ==> bs.mount_path@[0]
            == '/' && bs.mount_path@.len() >= 2 && forall|i: int|
            0 <= i < bs.mount_path@.len() ==> {
                let c = #[trigger] bs.mount_path@[i];
                ('a' <= c && c <= 'z') || ('0' <= c && c <= '9') || c == '/' || c == '-' || c == '_'
                    || c == '.'
            }),
{
}

/// A request is taken exactly if its volume is, only a permanent VM is to
/// suspend by itself, and the VM either is a schedule VM with a command and an
/// expression that the `cron` crate takes, or asks for nothing that only
/// concerns schedules.
pub proof fn law_requests_that_are_taken(c: VmConfig)
    ensures
        refusal(c) is None <==> (c.auto_suspend is Some ==> c.mode is Permanent) && (
        c.mode is Schedule ==> c.cmd@.len() > 0 && c.cron_schedule is Some && cron_refusal(
            normalized(c.cron_schedule->0@),
        ) is None) && (!(c.mode is Schedule) ==> c.cmd@.len() == 0 && c.cron_schedule is None
            && c.timeout_secs is None) && (c.block_storage is Some ==> create::volume_refusal(
            c.block_storage->0,
        ) is None),
{
}

/// A request that is refused is told why: the first thing that is wrong with it.
pub proof fn law_refusals_say_what_is_wrong(c: VmConfig)
    ensures
        c.auto_suspend is Some && !(c.mode is Permanent) ==> refusal(c) == Some(
            "auto_suspend is only supported for permanent VMs"@,
        ),
        c.auto_suspend is None && c.mode is Schedule && c.cmd@.len() == 0 ==> refusal(c) == Some(
            "schedule VMs require a non-empty cmd"@,
        ),
        c.auto_suspend is None && c.mode is Schedule && c.cmd@.len() > 0 && c.cron_schedule is None
            ==> refusal(c) == Some("schedule VMs require a cron_schedule"@),
        (c.auto_suspend is Some ==> c.mode is Permanent) && !(c.mode is Schedule) && (
        c.cron_schedule is Some || c.timeout_secs is Some) ==> refusal(c) == Some(
            "cron_schedule and timeout_secs are only supported for schedule VMs"@,
        ),
        (c.auto_suspend is Some ==> c.mode is Permanent) && !(c.mode is Schedule)
            && c.cron_schedule is None && c.timeout_secs is None && c.cmd@.len() > 0 ==> refusal(c)
            == Some("cmd is only supported for schedule VMs"@),
        c.block_storage is Some && refusal((VmConfig { block_storage: None, ..c })) is None
            ==> refusal(c) == create::volume_refusal(c.block_storage->0),
{
}

/// A volume that is refused is told why.
pub proof fn law_volume_refusals_say_what_is_wrong(bs: BlockStorageConfig)
    ensures
        bs.size_mb < 128 ==> create::volume_refusal(bs) == Some(
            "block_storage size_mb must be >= 128"@,
        ),
        bs.size_mb >= 128 && bs.chunk_kb is Some && !(bs.chunk_kb->0 == 256 || bs.chunk_kb->0 == 512
            || bs.chunk_kb->0 == 1024 || bs.chunk_kb->0 == 2048 || bs.chunk_kb->0 == 4096)
            ==> create::volume_refusal(bs) == Some(
            "block_storage chunk_kb must be one of [256, 512, 1024, 2048, 4096]"@,
        ),
        bs.size_mb >= 128 && bs.chunk_kb is None && bs.mount_path@.len() > 0
            && create::volume_refusal(bs) is Some ==> create::volume_refusal(bs) == Some(
            "block_storage mount_path must be an absolute path of [a-z0-9/_-.]"@,
        ),
{
}

/// What an image fills in changes the idle check at most: the machine, the
/// network, the schedule and the volume stay as they were asked for.
pub proof fn law_image_defaults_keep_request(asked: VmConfig, filled: VmConfig)
    requires
        create::same_but_idle_check(asked, filled),
    ensures
        filled.name == asked.name,
        filled.project_id == asked.project_id,
        filled.mode == asked.mode,
        filled.image == asked.image,
        filled.cpus == asked.cpus,
        filled.memory_mb == asked.memory_mb,
        filled.disk_size_mb == asked.disk_size_mb,
        filled.network_config == asked.network_config,
        filled.cmd == asked.cmd,
        filled.env == asked.env,
        filled.services == asked.services,
        filled.cron_schedule == asked.cron_schedule,
        filled.timeout_secs == asked.timeout_secs,
        filled.block_storage == asked.block_storage,
        filled.auto_suspend is Some <==> asked.auto_suspend is Some,
        asked.auto_suspend is Some ==> filled.auto_suspend->0.idle_timeout_secs
            == asked.auto_suspend->0.idle_timeout_secs,
        asked.auto_suspend is Some ==> filled.auto_suspend->0.check_interval_secs
            == asked.auto_suspend->0.check_interval_secs,
{
}

/// A PostgreSQL VM that may suspend and names no idle check gets the image's;
/// an explicit command always wins, and no other image has one.
pub proof fn law_explicit_idle_check_wins(c: VmConfig)
    ensures
        create::takes_image_idle_check(c) ==> c.auto_suspend is Some
            && c.auto_suspend->0.idle_check_cmd@.len() == 0 && c.image@ == "postgres-16"@,
        c.auto_suspend is Some && c.auto_suspend->0.idle_check_cmd@.len() == 0 && c.image@
            == "postgres-16"@ ==> create::takes_image_idle_check(c),
{
}

// ---------------------------------------------------------------------------
// Files
// ---------------------------------------------------------------------------

/// The images there are.
pub open spec fn images() -> Seq<Seq<char>> {
    seq!["node-22"@, "postgres-16"@, "python-3.12"@, "s3files"@, "tiko-postgres"@, "ubuntu-24"@]
}

/// Every image has a root file system that is called after it, and nothing else
/// has one.
pub proof fn law_root_file_systems_are_called_after_images(image: Seq<char>)
    ensures
        rootfs_of(image) is Some <==> images().contains(image),
        rootfs_of(image) is Some ==> text::has_prefix(rootfs_of(image)->0, image)
            && text::has_prefix(rootfs_of(image)->0.reverse(), "-rootfs.ext4"@.reverse()),
{
    reveal_strlit("-rootfs.ext4");
    reveal_strlit("node-22");
    reveal_strlit("node-22-rootfs.ext4");
    reveal_strlit("postgres-16");
    reveal_strlit("postgres-16-rootfs.ext4");
    reveal_strlit("python-3.12");
    reveal_strlit("python-3.12-rootfs.ext4");
    reveal_strlit("s3files");
    reveal_strlit("s3files-rootfs.ext4");
    reveal_strlit("tiko-postgres");
    reveal_strlit("tiko-postgres-rootfs.ext4");
    reveal_strlit("ubuntu-24");
    reveal_strlit("ubuntu-24.04-rootfs.ext4");
    assert(images()[0] == "node-22"@);
    assert(images()[1] == "postgres-16"@);
    assert(images()[2] == "python-3.12"@);
    assert(images()[3] == "s3files"@);
    assert(images()[4] == "tiko-postgres"@);
    assert(images()[5] == "ubuntu-24"@);
    if rootfs_of(image) is Some {
        let fs = rootfs_of(image)->0;
        assert(fs.take(image.len() as int) =~= image);
        assert(fs.reverse().take(12) =~= "-rootfs.ext4"@.reverse());
    }
}

/// What a VM writes, or has written for it, in its own directory.
pub open spec fn own_files(i: VmInstance) -> Seq<Seq<char>> {
    seq![i.overlay_disk@, i.socket_path@, i.vsock_uds_path@, i.serial_log@, i.error_log@]
}

/// A file of a VM stands in the VM's directory.
proof fn lemma_vm_file(work_dir: Seq<char>, id: Seq<char>, suffix: Seq<char>)
    requires
        id.len() > 0,
        no_slash(id),
    ensures
        vm_file(work_dir, id, suffix) == text::path_joined(work_dir, id) + "/"@ + (id + suffix),
        text::path_joined(work_dir, id).len() >= id.len(),
        text::path_joined(work_dir, id).len() - id.len() == (if work_dir.len() == 0
            || work_dir.last() == '/' {
            work_dir.len()
        } else {
            work_dir.len() + 1
        }),
        text::path_joined(work_dir, id).skip(
            text::path_joined(work_dir, id).len() - id.len(),
        ) == id,
{
    reveal_strlit("/");
    let dir = text::path_joined(work_dir, id);
    assert(id[0] != '/');
    assert(dir.last() == id.last());
    assert((id + suffix)[0] == id[0]);
    assert(dir.skip(dir.len() - id.len()) =~= id);
}

/// No two VMs share a file: neither a disk nor a socket nor a log.
pub proof fn law_vms_share_no_file(
    i: VmInstance,
    a: Seq<char>,
    j: VmInstance,
    b: Seq<char>,
    assets_dir: Seq<char>,
    work_dir: Seq<char>,
    m: int,
    n: int,
)
    requires
        laid_out(i, a, assets_dir, work_dir),
        laid_out(j, b, assets_dir, work_dir),
        a != b,
        a.len() > 0 && no_slash(a),
        b.len() > 0 && no_slash(b),
        0 <= m < 5,
        0 <= n < 5,
    ensures
        own_files(i)[m] != own_files(j)[n],
{
    lemma_suffixes();
    let s = suffixes()[m];
    let t = suffixes()[n];
    lemma_files_apart(work_dir, a, s, b, t);
    assert(own_files(i)[m] == vm_file(work_dir, a, s));
    assert(own_files(j)[n] == vm_file(work_dir, b, t));
}

/// What the files of a VM are told apart by.
spec fn suffixes() -> Seq<Seq<char>> {
    seq![".overlay.ext4"@, ".socket"@, ".vsock"@, ".serial.log"@, ".stderr.log"@]
}

proof fn lemma_suffixes()
    ensures
        forall|m: int| 0 <= m < 5 ==> no_slash(#[trigger] suffixes()[m]),
        forall|m: int, n: int|
            0 <= m < n < 5 ==> (#[trigger] suffixes()[m]) != (#[trigger] suffixes()[n]),
{
    reveal_strlit(".overlay.ext4");
    reveal_strlit(".socket");
    reveal_strlit(".vsock");
    reveal_strlit(".serial.log");
    reveal_strlit(".stderr.log");
    assert(".overlay.ext4"@[1] == 'o');
    assert(".socket"@[2] == 'o');
    assert(".socket"@[1] == 's');
    assert(".vsock"@[1] == 'v');
    assert(".serial.log"@[1] == 's');
    assert(".serial.log"@[2] == 'e');
    assert(".stderr.log"@[1] == 's');
    assert(".stderr.log"@[2] == 't');
    assert(suffixes()[0] == ".overlay.ext4"@);
    assert(suffixes()[1] == ".socket"@);
    assert(suffixes()[2] == ".vsock"@);
    assert(suffixes()[3] == ".serial.log"@);
    assert(suffixes()[4] == ".stderr.log"@);
}

/// The files of one VM differ from each other, stand in the VM's own directory,
/// and its kernel, its initramfs and its root file system are those of the
/// assets.
pub proof fn law_files_of_a_vm(
    i: VmInstance,
    id: Seq<char>,
    assets_dir: Seq<char>,
    work_dir: Seq<char>,
    m: int,
    n: int,
)
    requires
        laid_out(i, id, assets_dir, work_dir),
        id.len() > 0 && no_slash(id),
        0 <= m < 5,
        0 <= n < 5,
    ensures
        m != n ==> own_files(i)[m] != own_files(i)[n],
        i.work_dir@ == text::path_joined(work_dir, id),
        text::has_prefix(own_files(i)[m], i.work_dir@ + "/"@ + id),
        i.kernel_path@ == text::path_joined(assets_dir, "vmlinux.bin"@),
        i.initramfs_path@ == text::path_joined(assets_dir, "initramfs.cpio.gz"@),
        i.rootfs_path@ == text::path_joined(assets_dir, rootfs_of(i.vm_config.image@)->0),
        i.state is Creating,
        i.net is None && i.guest_cid is None && i.block_device is None && i.snapshot is None,
{
    lemma_suffixes();
    let s = suffixes()[m];
    let t = suffixes()[n];
    lemma_vm_file(work_dir, id, s);
    lemma_vm_file(work_dir, id, t);
    assert(own_files(i)[m] == vm_file(work_dir, id, s));
    assert(own_files(i)[n] == vm_file(work_dir, id, t));
    let dir = text::path_joined(work_dir, id);
    assert(own_files(i)[m] =~= dir + "/"@ + id + s);
    assert(own_files(i)[n] =~= dir + "/"@ + id + t);
    assert(own_files(i)[m].skip((dir + "/"@ + id).len() as int) =~= s);
    assert(own_files(i)[n].skip((dir + "/"@ + id).len() as int) =~= t);
    assert(own_files(i)[m].take((dir + "/"@ + id).len() as int) =~= dir + "/"@ + id);
}

/// Where snapshots are kept differs from VM to VM, and neither file of one is
/// ever a file of another.
pub proof fn law_snapshots_share_no_file(
    i: VmInstance,
    a: Seq<char>,
    s: VmSnapshot,
    j: VmInstance,
    b: Seq<char>,
    t: VmSnapshot,
    assets_dir: Seq<char>,
    work_dir: Seq<char>,
    now: u64,
    then: u64,
)
    requires
        laid_out(i, a, assets_dir, work_dir),
        laid_out(j, b, assets_dir, work_dir),
        crate::vmm::lifecycle::snapshot_for(s, i, now),
        crate::vmm::lifecycle::snapshot_for(t, j, then),
        a != b,
        a.len() > 0 && no_slash(a),
        b.len() > 0 && no_slash(b),
    ensures
        s.state_path@ != t.state_path@,
        s.state_path@ != t.mem_path@,
        s.mem_path@ != t.state_path@,
        s.mem_path@ != t.mem_path@,
{
    reveal_strlit("_snapshot.state");
    reveal_strlit("_snapshot.mem");
    lemma_files_apart(work_dir, a, "_snapshot.state"@, b, "_snapshot.state"@);
    lemma_files_apart(work_dir, a, "_snapshot.state"@, b, "_snapshot.mem"@);
    lemma_files_apart(work_dir, a, "_snapshot.mem"@, b, "_snapshot.state"@);
    lemma_files_apart(work_dir, a, "_snapshot.mem"@, b, "_snapshot.mem"@);
}

/// Files of two VMs differ.
proof fn lemma_files_apart(
    work_dir: Seq<char>,
    a: Seq<char>,
    s: Seq<char>,
    b: Seq<char>,
    t: Seq<char>,
)
    requires
        a != b,
        a.len() > 0 && no_slash(a),
        b.len() > 0 && no_slash(b),
        no_slash(s),
        no_slash(t),
    ensures
        vm_file(work_dir, a, s) != vm_file(work_dir, b, t),
{
    lemma_vm_file(work_dir, a, s);
    lemma_vm_file(work_dir, b, t);
    if vm_file(work_dir, a, s) == vm_file(work_dir, b, t) {
        let dir = text::path_joined(work_dir, a);
        lemma_last_component(dir, a + s, text::path_joined(work_dir, b), b + t);
        assert(dir.len() - a.len() == dir.len() - b.len());
    }
}

// ---------------------------------------------------------------------------
// Creation and removal
// ---------------------------------------------------------------------------

/// A creation goes through its phases in order and ends: directory, network,
/// volume if one was asked for, process, machine.
pub proof fn law_creation_runs_its_course(phase: CreatePhase, has_volume: bool)
    ensures
        phase is Directory ==> following(phase, has_volume) is Network,
        phase is Network && has_volume ==> following(phase, has_volume) is Volume,
        phase is Network && !has_volume ==> following(phase, has_volume) is Process,
        phase is Volume ==> following(phase, has_volume) is Process,
        phase is Process ==> following(phase, has_volume) is Machine,
        phase is Machine ==> following(phase, has_volume) is Ready,
        phase is Ready ==> following(phase, has_volume) is Ready,
{
}

/// What a phase brings is what the VM has: its network, its vsock address and
/// its device are those that were allocated, and nothing else of it changes.
pub proof fn law_creation_records_what_it_got(i: VmInstance, event: CreateEvent)
    ensures
        event is Network ==> recorded(i, event).net == Some(event->net) && recorded(
            i,
            event,
        ).guest_cid == Some(event->guest_cid) && recorded(i, event).block_device == i.block_device,
        event is Volume ==> recorded(i, event).block_device == Some(event->device) && recorded(
            i,
            event,
        ).net == i.net && recorded(i, event).guest_cid == i.guest_cid,
        event is Done ==> recorded(i, event) == i,
        recorded(i, event) == (VmInstance {
            net: recorded(i, event).net,
            guest_cid: recorded(i, event).guest_cid,
            block_device: recorded(i, event).block_device,
            ..i
        }),
{
}

/// What a failed creation undoes, it undoes in the reverse of the order in which
/// it was done, so that a process is gone before what it uses: the process
/// exactly if it was started, the volume exactly if it was attached, and once
/// there is a network, that and the directory.
pub proof fn law_creation_is_undone_in_reverse(i: VmInstance, phase: CreatePhase)
    ensures
        ({
            let steps = undo_of(i, phase);
            let n = steps.len() as int;
            let begun = !(phase is Directory) && !(phase is Network);
            &&& steps.contains(UndoStep::KillProcess) <==> phase is Machine || phase is Ready
            &&& steps.contains(UndoStep::KillProcess) ==> steps[0] == UndoStep::KillProcess
            &&& steps.contains(UndoStep::DetachVolume) <==> begun && i.block_device is Some
            &&& begun ==> n >= 2 && steps[n - 1] == UndoStep::RemoveDirectory && steps[n - 2]
                == UndoStep::ReleaseNetwork
            &&& !begun ==> n == 0
            &&& forall|a: int, b: int| 0 <= a < b < n ==> (#[trigger] steps[a]) != (#[trigger] steps[b])
        }),
{
    let steps = undo_of(i, phase);
    if phase is Machine || phase is Ready {
        assert(steps[0] == UndoStep::KillProcess);
        if i.block_device is Some {
            assert(steps[1] == UndoStep::DetachVolume);
        }
    } else if !(phase is Directory) && !(phase is Network) && i.block_device is Some {
        assert(steps[0] == UndoStep::DetachVolume);
    }
}

/// A VM that is removed leaves nothing behind: its process is killed first if
/// there is one, then its network is released, its volume detached and its
/// directory removed, each once.
pub proof fn law_destroyed_vm_leaves_nothing(e: FcVmEntry)
    ensures
        ({
            let steps = destroy_steps(e);
            let n = steps.len() as int;
            &&& steps.contains(DestroyStep::KillProcess) <==> e.has_process
            &&& e.has_process ==> n == 4 && steps[0] == DestroyStep::KillProcess
            &&& !e.has_process ==> n == 3
            &&& steps[n - 3] == DestroyStep::ReleaseNetwork
            &&& steps[n - 2] == DestroyStep::DetachVolume
            &&& steps[n - 1] == DestroyStep::RemoveDirectory
        }),
{
    let steps = destroy_steps(e);
    if e.has_process {
        assert(steps[0] == DestroyStep::KillProcess);
    }
}

// ---------------------------------------------------------------------------
// Workloads
// ---------------------------------------------------------------------------

/// A workload is active while it is starting or running, and only then.
pub proof fn law_active_workloads(s: WorkloadState)
    ensures
        active(s) <==> s == WorkloadState::Starting || s == WorkloadState::Running,
{
}

/// What the guest agent reports of a workload is recorded: its process number
/// and when it came up, its exit code or the signal that ended it and when, or
/// that it could not be started. Whose workload it is and what it was to run
/// never changes.
pub proof fn law_reports_are_recorded(
    w: Workload,
    pid: u32,
    exit_code: Option<i32>,
    signal: Option<i32>,
    now: u64,
)
    ensures
        w.state is Starting ==> ({
            let up = running(w, Some(pid), now);
            &&& up.state is Running
            &&& up.pid == Some(pid)
            &&& up.started_at == Some(now)
            &&& running(w, None, now).state is Running
            &&& running(w, None, now).pid == w.pid
            &&& running(w, None, now).started_at == Some(now)
        }),
        !(w.state is Starting) ==> running(w, Some(pid), now) == w,
        w.state is Starting || w.state is Running ==> ({
            let ended = exited(w, exit_code, signal, now);
            &&& ended.exit_code == exit_code
            &&& ended.signal == signal
            &&& ended.finished_at == Some(now)
            &&& w.stop_requested ==> ended.state is Stopped
            &&& !w.stop_requested ==> ended.state is Exited
            &&& ended.pid == w.pid && ended.started_at == w.started_at
            &&& failed(w, now).state is Failed
            &&& failed(w, now).finished_at == Some(now)
        }),
        forall|after: Workload|
            #![trigger after.workload_id]
            after == running(w, Some(pid), now) || after == exited(w, exit_code, signal, now)
                || after == failed(w, now) ==> {
                &&& after.workload_id == w.workload_id
                &&& after.vm_id == w.vm_id
                &&& after.spec == w.spec
                &&& after.origin == w.origin
                &&& after.created_at == w.created_at
                &&& after.stop_requested == w.stop_requested
            },
{
}

// ---------------------------------------------------------------------------
// Finding VMs
// ---------------------------------------------------------------------------

/// The activity finds exactly the VMs that are idle.
pub proof fn law_idle_vms_are_found(
    vms: Seq<FcVmEntry>,
    activity: Map<Seq<char>, (nat, Option<u64>)>,
    now: u64,
    id: Seq<char>,
)
    ensures
        crate::vmm::auto_suspend::idle_of(vms, activity, now).contains(id) <==> exists|k: int|
            0 <= k < vms.len() && (#[trigger] vms[k]).instance.vm_id.0@ == id
                && crate::vmm::auto_suspend::http_idle(
                vms[k],
                crate::vmm::activity::latest_in(activity, id),
                now,
            ),
    decreases vms.len(),
{
    if vms.len() > 0 {
        let rest = vms.drop_last();
        law_idle_vms_are_found(rest, activity, now, id);
        let found = crate::vmm::auto_suspend::idle_of(rest, activity, now);
        let e = vms.last();
        assert(forall|k: int| 0 <= k < rest.len() ==> rest[k] == #[trigger] vms[k]);
        assert(vms[vms.len() - 1] == e);
        vstd::seq_lib::lemma_seq_contains_after_push(found, e.instance.vm_id.0@, id);
    }
}

/// A look at the schedules finds exactly the schedule VMs whose expression fires
/// behind the previous tick and not behind now.
pub proof fn law_due_vms_are_found(
    vms: Seq<FcVmEntry>,
    last_tick_ms: i64,
    now_ms: i64,
    id: Seq<char>,
)
    ensures
        crate::vmm::schedule::due_of(vms, last_tick_ms, now_ms).contains(id) <==> exists|
            k: int,
            fire: i64,
        |
            0 <= k < vms.len() && (#[trigger] vms[k]).instance.vm_id.0@ == id
                && vms[k].instance.vm_config.mode is Schedule
                && vms[k].instance.vm_config.cron_schedule is Some && cron_refusal(
                normalized(vms[k].instance.vm_config.cron_schedule->0@),
            ) is None && crate::vmm::schedule::cron_first_fire(
                normalized(vms[k].instance.vm_config.cron_schedule->0@),
                last_tick_ms as int,
            ) == #[trigger] first_at(fire) && fire <= now_ms,
    decreases vms.len(),
{
    if vms.len() > 0 {
        let rest = vms.drop_last();
        law_due_vms_are_found(rest, last_tick_ms, now_ms, id);
        let found = crate::vmm::schedule::due_of(rest, last_tick_ms, now_ms);
        let e = vms.last();
        assert(forall|k: int| 0 <= k < rest.len() ==> rest[k] == #[trigger] vms[k]);
        assert(vms[vms.len() - 1] == e);
        vstd::seq_lib::lemma_seq_contains_after_push(found, e.instance.vm_id.0@, id);
        if crate::vmm::schedule::vm_due(e, last_tick_ms, now_ms) {
            let expr = normalized(e.instance.vm_config.cron_schedule->0@);
            let fire = crate::vmm::schedule::cron_first_fire(expr, last_tick_ms as int)->Ok_0->0;
            assert(crate::vmm::schedule::cron_first_fire(expr, last_tick_ms as int) == first_at(
                fire,
            ));
        }
        if crate::vmm::schedule::due_of(rest, last_tick_ms, now_ms).contains(id) {
            let (k, fire) = choose|k: int, fire: i64|
                0 <= k < rest.len() && (#[trigger] rest[k]).instance.vm_id.0@ == id
                    && rest[k].instance.vm_config.mode is Schedule
                    && rest[k].instance.vm_config.cron_schedule is Some && cron_refusal(
                    normalized(rest[k].instance.vm_config.cron_schedule->0@),
                ) is None && crate::vmm::schedule::cron_first_fire(
                    normalized(rest[k].instance.vm_config.cron_schedule->0@),
                    last_tick_ms as int,
                ) == #[trigger] first_at(fire) && fire <= now_ms;
            assert(vms[k] == rest[k]);
        }
    }
}

/// That an expression fires first at a time.
pub open spec fn first_at(fire: i64) -> Result<Option<i64>, Seq<char>> {
    Ok(Some(fire))
}

/// Standard cron has five fields and fires at the top of the minute: it is taken
/// with a seconds field of zero in front. Any other expression is taken field by
/// field as it stands.
pub proof fn law_five_fields_fire_at_the_top_of_the_minute(expr: Seq<char>)
    ensures
        ({
            let fields = text::words(text::trimmed(expr));
            text::words(normalized(expr)) == if fields.len() == 5 {
                seq![seq!['0']] + fields
            } else {
                fields
            }
        }),
{
    let t = text::trimmed(expr);
    if text::words(t).len() == 5 {
        reveal_strlit("0 ");
        let s = "0 "@ + t;
        assert(s[0] == '0' && s[1] == ' ');
        assert(s.drop_first()[0] == ' ');
        assert(text::word_len(s.drop_first()) == 0);
        assert(text::word_len(s) == 1);
        assert(s.take(1) =~= seq!['0']);
        assert(s.skip(1)[0] == ' ');
        assert(s.skip(1).drop_first() =~= t);
        assert(text::words(s.skip(1)) == text::words(t));
        assert(text::words(s) == seq![s.take(1)] + text::words(s.skip(1)));
    }
}

// ---------------------------------------------------------------------------
// One VM at a time
// ---------------------------------------------------------------------------

/// What is done to the workloads of one VM touches nothing else: neither another
/// VM, nor anything of that VM but its workloads, nor the host's own records.
pub proof fn law_workloads_of_one_vm_change(
    before: FirecrackerVmm,
    after: FirecrackerVmm,
    i: int,
    workloads: Seq<Workload>,
    k: int,
)
    requires
        crate::vmm::guest::workloads_changed(before, after, i, workloads),
        0 <= i < before.vms@.len(),
        0 <= k < before.vms@.len(),
    ensures
        after.vms@.len() == before.vms@.len(),
        k != i ==> after.vms@[k] == before.vms@[k],
        after.vms@[i].workloads@ == workloads,
        after.vms@[i].instance == before.vms@[i].instance,
        after.vms@[i].has_process == before.vms@[i].has_process,
        after.vms@[i].guest_conn == before.vms@[i].guest_conn,
        after.vms@[i].woken_at == before.vms@[i].woken_at,
        after.vms@[i].run_active == before.vms@[i].run_active,
        after.next_cid == before.next_cid,
        after.activity == before.activity,
{
}

/// Exposing a port of one VM, or taking one back, touches nothing else: neither
/// another VM, nor anything of that VM but its exposed ports.
pub proof fn law_ports_of_one_vm_change(
    before: FirecrackerVmm,
    after: FirecrackerVmm,
    i: int,
    ports: Seq<crate::net::types::ExposedPort>,
    k: int,
)
    requires
        crate::vmm::guest::ports_changed(before, after, i, ports),
        0 <= i < before.vms@.len(),
        0 <= k < before.vms@.len(),
    ensures
        after.vms@.len() == before.vms@.len(),
        k != i ==> after.vms@[k] == before.vms@[k],
        ({
            let b = before.vms@[i];
            let a = after.vms@[i];
            &&& a.instance.vm_config.network_config.exposed_ports@ == ports
            &&& a.instance.vm_config.network_config.allow_internet
                == b.instance.vm_config.network_config.allow_internet
            &&& a.instance.vm_config.network_config.public_access
                == b.instance.vm_config.network_config.public_access
            &&& a.instance.vm_id == b.instance.vm_id
            &&& a.instance.state == b.instance.state
            &&& a.instance.net == b.instance.net
            &&& a.instance.snapshot == b.instance.snapshot
            &&& a.instance.vm_config.cpus == b.instance.vm_config.cpus
            &&& a.instance.vm_config.memory_mb == b.instance.vm_config.memory_mb
            &&& a.instance.vm_config.auto_suspend == b.instance.vm_config.auto_suspend
            &&& a.workloads == b.workloads
            &&& a.has_process == b.has_process
        }),
        after.next_cid == before.next_cid,
        after.activity == before.activity,
{
}

/// A workload that is active can be stopped: no reason to refuse it applies. One
/// that has ended, or that nobody knows, cannot.
pub proof fn law_exactly_active_workloads_can_be_stopped(
    vms: Seq<FcVmEntry>,
    vm_id: Seq<char>,
    workload_id: Seq<char>,
    e: crate::error::Error,
)
    ensures
        ({
            let i = crate::vmm::firecracker::vm_index(vms, vm_id) as int;
            let w = vms[i].workloads@;
            let k = crate::vmm::firecracker::workload_index(w, workload_id) as int;
            crate::vmm::guest::stop_refused(e, vms, vm_id, workload_id) ==> i == vms.len() || k
                == w.len() || (w[k].state != WorkloadState::Starting && w[k].state
                != WorkloadState::Running)
        }),
{
}

/// Every phase of a creation brings what it is for: the network phase a network
/// and a vsock address, the volume phase a device, and the others nothing.
pub proof fn law_phases_bring_what_they_are_for(phase: CreatePhase, event: CreateEvent)
    requires
        create::event_fits(phase, event),
    ensures
        phase is Network <==> event is Network,
        phase is Volume <==> event is Volume,
        !(phase is Ready),
{
}

// ---------------------------------------------------------------------------
// Names
// ---------------------------------------------------------------------------

/// Random names have six characters of which none is easily mistaken for
/// another: no `i`, `l` or `o`, no 0 or 1; and none that means anything in a path.
pub proof fn law_random_names_are_easily_read(suffix: Seq<char>)
    requires
        crate::vmm::utils::id_suffix(suffix),
    ensures
        suffix.len() == 6,
        no_slash(suffix),
        forall|k: int|
            0 <= k < suffix.len() ==> {
                let c = #[trigger] suffix[k];
                (('a' <= c && c <= 'z') || ('2' <= c && c <= '9')) && c != 'i' && c != 'l' && c
                    != 'o'
            },
{
    reveal_strlit("abcdefghjkmnpqrstuvwxyz23456789");
    assert forall|k: int| 0 <= k < suffix.len() implies {
        let c = #[trigger] suffix[k];
        c != '/' && (('a' <= c && c <= 'z') || ('2' <= c && c <= '9')) && c != 'i' && c != 'l' && c
            != 'o'
    } by {
        let c = suffix[k];
        assert(crate::vmm::utils::ID_CHARSET@.contains(c));
    }
}

/// A VM's name says whose it is, and names of VMs of different projects differ.
pub proof fn law_vm_names_say_the_project(p: u64, s: Seq<char>, q: u64, t: Seq<char>)
    requires
        crate::vmm::utils::id_suffix(s),
        crate::vmm::utils::id_suffix(t),
        "vm-"@ + text::decimal(p as nat) + "-"@ + s == "vm-"@ + text::decimal(q as nat) + "-"@ + t,
    ensures
        p == q,
        s == t,
{
    let a = "vm-"@ + text::decimal(p as nat) + "-"@ + s;
    let b = "vm-"@ + text::decimal(q as nat) + "-"@ + t;
    reveal_strlit("vm-");
    reveal_strlit("-");
    let n = text::decimal(p as nat).len() as int;
    assert(a.len() == b.len());
    assert(s.len() == t.len());
    assert(text::decimal(q as nat).len() == n);
    assert(a.subrange(3, 3 + n) =~= text::decimal(p as nat));
    assert(b.subrange(3, 3 + n) =~= text::decimal(q as nat));
    assert(a.skip(4 + n) =~= s);
    assert(b.skip(4 + n) =~= t);
    text::lemma_read_decimal(p as nat, u64::MAX as nat);
    text::lemma_read_decimal(q as nat, u64::MAX as nat);
}

/// The host looks for a guest agent where the agent listens, and no VM gets a
/// vsock address that is reserved.
pub proof fn law_host_and_agent_meet()
    ensures
        crate::vmm::vsock::GUESTD_PORT == crate::guestd::agent::VSOCK_PORT,
        crate::vmm::firecracker::FIRST_GUEST_CID > 2,
{
}

/// States are told apart by their names.
pub proof fn law_state_names_differ(a: VmState, b: VmState, s: WorkloadState, t: WorkloadState)
    ensures
        a != b ==> crate::vmm::state::state_name(a) != crate::vmm::state::state_name(b),
        s != t ==> crate::vmm::workload::workload_state_name(s)
            != crate::vmm::workload::workload_state_name(t),
{
    reveal_strlit("Creating");
    reveal_strlit("Starting");
    reveal_strlit("Pausing");
    reveal_strlit("Resuming");
    reveal_strlit("Suspending");
    reveal_strlit("Restoring");
    reveal_strlit("Destroying");
    reveal_strlit("Created");
    reveal_strlit("Started");
    reveal_strlit("Paused");
    reveal_strlit("Suspended");
    reveal_strlit("Destroyed");
    reveal_strlit("Running");
    reveal_strlit("Exited");
    reveal_strlit("Stopped");
    reveal_strlit("Failed");
    assert("Creating"@.len() == 8 && "Creating"@[0] == 'C');
    assert("Starting"@.len() == 8 && "Starting"@[0] == 'S');
    assert("Pausing"@.len() == 7 && "Pausing"@[0] == 'P');
    assert("Resuming"@.len() == 8 && "Resuming"@[0] == 'R');
    assert("Suspending"@.len() == 10 && "Suspending"@[0] == 'S');
    assert("Restoring"@.len() == 9 && "Restoring"@[0] == 'R');
    assert("Destroying"@.len() == 10 && "Destroying"@[0] == 'D');
    assert("Created"@.len() == 7 && "Created"@[0] == 'C');
    assert("Started"@.len() == 7 && "Started"@[0] == 'S');
    assert("Paused"@.len() == 6 && "Paused"@[0] == 'P');
    assert("Suspended"@.len() == 9 && "Suspended"@[0] == 'S');
    assert("Destroyed"@.len() == 9 && "Destroyed"@[0] == 'D');
    assert("Running"@.len() == 7);
    assert("Exited"@.len() == 6 && "Exited"@[0] == 'E');
    assert("Stopped"@.len() == 7 && "Stopped"@[0] == 'S');
    assert("Running"@[0] == 'R');
    assert("Failed"@.len() == 6 && "Failed"@[0] == 'F');
}

} // verus!
