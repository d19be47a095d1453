use chrono::{DateTime, Timelike, Utc};
use tikovm::clock;
use tikovm::error::Error;
use tikovm::json::{JsonField, JsonValue};
use tikovm::net::cidr::{Ipv4Addr, Ipv4Net};
use tikovm::net::types::{ExposedPort, NetworkConfig, TapName, VmNet};
use tikovm::vmm::activity::ActivityTracker;
use tikovm::vmm::create::{self, CreateEvent, CreatePhase, Creation, UndoStep, PG_IDLE_CHECK};
use tikovm::vmm::fc_api::{self, HeaderStep, RunningStep};
use tikovm::vmm::firecracker::{DestroyStep, FirecrackerVmm};
use tikovm::vmm::guest::{ConnNeed, EventAction};
use tikovm::vmm::lifecycle::{FcStep, WakeStep};
use tikovm::vmm::schedule::{self, parse_cron_schedule, AwaitStep, RunWake};
use tikovm::vmm::setup::{self, systemd_escape_path, SeedStep, SetupStep, SocketStep};
use tikovm::vmm::state::VmState;
use tikovm::vmm::utils;
use tikovm::vmm::vm::{
    AutoSuspendConfig, BlockStorageConfig, EnvVar, VmConfig, VmId, VmInstance, VmMode,
};
use tikovm::vmm::vsock::{
    self, ConnectStep, GuestEvent, GuestRequest, GuestWorkloadInfo, HandshakeStep,
};
use tikovm::vmm::workload::{Workload, WorkloadId, WorkloadOrigin, WorkloadSpec, WorkloadState};

fn config(mode: VmMode) -> VmConfig {
    VmConfig {
        name: "web".to_string(),
        project_id: 7,
        mode,
        image: "ubuntu-24".to_string(),
        cpus: 2,
        memory_mb: 512,
        disk_size_mb: 1024,
        network_config: NetworkConfig::default(),
        ssh_access: false,
        env: vec![],
        cmd: vec![],
        services: vec![],
        cron_schedule: None,
        timeout_secs: None,
        tags: vec![],
        auto_suspend: None,
        block_storage: None,
    }
}

fn suspending(secs: u64) -> VmConfig {
    let mut c = config(VmMode::Permanent);
    c.auto_suspend = Some(AutoSuspendConfig {
        idle_timeout_secs: secs,
        idle_check_cmd: vec!["/bin/idle".to_string()],
        check_interval_secs: 15,
    });
    c
}

fn scheduled(cron: &str) -> VmConfig {
    let mut c = config(VmMode::Schedule);
    c.cmd = vec!["/bin/job".to_string()];
    c.cron_schedule = Some(cron.to_string());
    c.timeout_secs = Some(60);
    c
}

fn net() -> VmNet {
    VmNet::new(
        TapName::for_vm("vm-7-aaaaaa"),
        Ipv4Addr::new(172, 16, 0, 2),
        Ipv4Addr::new(172, 16, 0, 1),
        Ipv4Net::parse("172.16.0.0/24").unwrap(),
    )
}

/// Registers a VM as its creation does.
fn created(vmm: &mut FirecrackerVmm, config: VmConfig) -> VmId {
    let mut c = vmm.create_vm(config).unwrap();
    c.advance(CreateEvent::Done);
    let guest_cid = vmm.next_guest_cid();
    c.advance(CreateEvent::Network { net: net(), guest_cid });
    if c.phase == CreatePhase::Volume {
        c.advance(CreateEvent::Volume { device: "/dev/ublkb0".to_string() });
    }
    c.advance(CreateEvent::Done);
    c.advance(CreateEvent::Done);
    assert_eq!(c.phase, CreatePhase::Ready);
    vmm.register(c)
}

fn started(vmm: &mut FirecrackerVmm, config: VmConfig) -> VmId {
    let id = created(vmm, config);
    let plan = vmm.start_vm(&id).unwrap();
    vmm.finish(plan, Ok(()), 0).unwrap();
    id
}

fn suspended(vmm: &mut FirecrackerVmm, config: VmConfig) -> VmId {
    let id = started(vmm, config);
    let plan = vmm.snapshot_vm(&id, 5).unwrap();
    vmm.finish(plan, Ok(()), 0).unwrap();
    id
}

fn vmm() -> FirecrackerVmm {
    FirecrackerVmm::new("/assets", "/work")
}

fn spec() -> WorkloadSpec {
    WorkloadSpec {
        cmd: vec!["/bin/true".to_string()],
        env: vec![EnvVar { key: "A".to_string(), value: "b".to_string() }],
        cwd: Some("/srv".to_string()),
    }
}

fn text_of<'a>(fields: &'a [JsonField], name: &str) -> &'a str {
    match &fields.iter().find(|f| f.name == name).unwrap().value {
        JsonValue::Text(t) => t,
        other => panic!("{other:?}"),
    }
}

// --- activity ---------------------------------------------------------------

#[test]
fn guard_tracks_in_flight() {
    let mut tracker = ActivityTracker::new();
    let vm = VmId::from("vm-1");
    assert_eq!(tracker.in_flight(&vm), 0);
    let guard = tracker.track(&vm, 1);
    assert_eq!(tracker.in_flight(&vm), 1);
    let guard2 = tracker.track(&vm, 2);
    assert_eq!(tracker.in_flight(&vm), 2);
    tracker.finish(guard, 3);
    assert_eq!(tracker.in_flight(&vm), 1);
    tracker.finish(guard2, 4);
    assert_eq!(tracker.in_flight(&vm), 0);
}

#[test]
fn track_updates_last_activity() {
    let mut tracker = ActivityTracker::new();
    let vm = VmId::from("vm-1");
    assert!(tracker.last_activity(&vm).is_none());
    let before = 1000;
    let _guard = tracker.track(&vm, before);
    let last = tracker.last_activity(&vm).unwrap();
    assert!(last >= before);
}

#[test]
fn vms_are_independent() {
    let mut tracker = ActivityTracker::new();
    let vm1 = VmId::from("vm-1");
    let vm2 = VmId::from("vm-2");
    let _guard = tracker.track(&vm1, 1);
    assert_eq!(tracker.in_flight(&vm1), 1);
    assert_eq!(tracker.in_flight(&vm2), 0);
    assert!(tracker.last_activity(&vm2).is_none());
}

#[test]
fn cleared_activity_is_forgotten() {
    let mut tracker = ActivityTracker::new();
    let vm = VmId::from("vm-1");
    let guard = tracker.track(&vm, 1);
    tracker.clear(&vm);
    assert_eq!(tracker.in_flight(&vm), 0);
    // A guard that outlives its VM brings nothing back.
    tracker.finish(guard, 9);
    assert_eq!(tracker.in_flight(&vm), 0);
}

// --- schedules --------------------------------------------------------------

fn fire_after(expr: &str, after: DateTime<Utc>) -> DateTime<Utc> {
    let ms = parse_cron_schedule(expr).unwrap().next_after(after.timestamp_millis()).unwrap();
    DateTime::from_timestamp_millis(ms).unwrap()
}

#[test]
fn parse_five_field_cron() {
    // Standard cron gets a `0` seconds field: fires at minute start.
    let next = fire_after("*/5 * * * *", Utc::now());
    assert_eq!(next.second(), 0);
    assert_eq!(next.minute() % 5, 0);
}

#[test]
fn parse_six_field_cron_with_seconds() {
    let next = fire_after("*/15 * * * * *", Utc::now());
    assert_eq!(next.second() % 15, 0);
}

#[test]
fn parse_rejects_garbage() {
    assert!(parse_cron_schedule("not a cron").is_err());
    assert!(parse_cron_schedule("").is_err());
    // 61 is not a valid minute.
    assert!(parse_cron_schedule("0 61 * * * *").is_err());
}

#[test]
fn fires_come_due_at_the_minute() {
    let minute = 60_000;
    assert_eq!(parse_cron_schedule("* * * * *").unwrap().next_after(1), Some(minute));
    assert!(!schedule::is_due("* * * * *", 1, minute - 1));
    assert!(schedule::is_due("* * * * *", 1, minute));
    assert!(schedule::is_due("* * * * *", 1, minute + 5000));
    assert!(!schedule::is_due("garbage", 1, minute));
    // A year that is over never fires again.
    let past = parse_cron_schedule("0 0 0 1 1 * 1999").unwrap();
    assert_eq!(past.next_after(1_700_000_000_000), None);
    assert!(!schedule::fire_is_due(None, minute));
}

#[test]
fn bad_schedules_are_quoted() {
    let e = parse_cron_schedule(" x\ty ").unwrap_err();
    assert!(e.message().starts_with("vmm error: invalid cron_schedule \" x\\ty \": "));
}

#[test]
fn due_schedules_run_once_at_a_time() {
    let mut vmm = vmm();
    let id = created(&mut vmm, scheduled("* * * * *"));
    created(&mut vmm, config(VmMode::Permanent));
    let due = vmm.fire_due_schedules(1, 60_000);
    assert_eq!(due.len(), 1);
    assert_eq!(due[0].0, id.0);
    assert!(vmm.fire_due_schedules(1, 59_999).is_empty());
    assert!(vmm.spawn_scheduled_run(&id));
    // The run before is not over.
    assert!(!vmm.spawn_scheduled_run(&id));
    assert_eq!(vmm.wake_for_run(&id).unwrap(), RunWake::Start);
    let (spec, timeout) = vmm.scheduled_cmd(&id).unwrap();
    assert_eq!(spec.cmd, vec!["/bin/job".to_string()]);
    assert_eq!(timeout, Some(60));
    vmm.end_scheduled_run(&id);
    assert!(vmm.spawn_scheduled_run(&id));
    // A run of a VM that is gone begins, and fails when it wakes the VM.
    let gone = VmId::from("vm-1-gone");
    assert!(vmm.spawn_scheduled_run(&gone));
    assert!(vmm.wake_for_run(&gone).is_err());
    vmm.end_scheduled_run(&gone);
}

#[test]
fn scheduled_runs_wake_what_they_need() {
    let mut vmm = vmm();
    let id = started(&mut vmm, scheduled("* * * * *"));
    assert_eq!(vmm.wake_for_run(&id).unwrap(), RunWake::Up);
    assert!(vmm.suspend_after_run(&id));
    let plan = vmm.snapshot_vm(&id, 0).unwrap();
    let e = vmm.wake_for_run(&id).unwrap_err();
    assert!(e.message().ends_with("cannot run scheduled cmd"), "{}", e.message());
    vmm.finish(plan, Ok(()), 0).unwrap();
    assert_eq!(vmm.wake_for_run(&id).unwrap(), RunWake::Wake);
    assert!(!vmm.suspend_after_run(&id));
    assert!(vmm.wake_for_run(&VmId::from("vm-1-none")).is_err());
}

#[test]
fn runs_are_stopped_at_their_timeout() {
    assert_eq!(schedule::await_workload(false, false, 0, 0, Some(60)), AwaitStep::Done);
    assert_eq!(schedule::await_workload(true, false, 0, 59_000, Some(60)), AwaitStep::Poll);
    assert_eq!(schedule::await_workload(true, false, 0, 61_000, Some(60)), AwaitStep::Stop);
    assert_eq!(schedule::await_workload(true, true, 0, 61_000, Some(60)), AwaitStep::Poll);
    assert_eq!(schedule::await_workload(true, false, 0, u64::MAX, None), AwaitStep::Poll);
}

// --- setup ------------------------------------------------------------------

#[test]
fn systemd_path_escaping() {
    assert_eq!(systemd_escape_path("/mnt/tikovm-data"), "mnt-tikovm\\x2ddata");
    assert_eq!(systemd_escape_path("/data"), "data");
    assert_eq!(systemd_escape_path("/a/b-c"), "a-b\\x2dc");
    assert_eq!(systemd_escape_path("/mnt/data.d"), "mnt-data.d");
    assert_eq!(systemd_escape_path("/x/.hidden"), "x-.hidden");
    assert_eq!(systemd_escape_path("/.hidden"), "\\x2ehidden");
}

#[test]
fn systemd_path_escaping_of_odd_slashes() {
    assert_eq!(systemd_escape_path("/"), "-");
    assert_eq!(systemd_escape_path("//a//b/"), "a-b");
}

fn ready(config: VmConfig) -> VmInstance {
    let id = VmId::from("vm-7-aaaaaa");
    let mut i = VmInstance::with_id(id, config, "/assets", "/work", 0).unwrap();
    i.net = Some(net());
    i.guest_cid = Some(3);
    i
}

#[test]
fn instances_know_their_files() {
    let i = ready(config(VmMode::Permanent));
    assert_eq!(i.rootfs_path, "/assets/ubuntu-24.04-rootfs.ext4");
    assert_eq!(i.kernel_path, "/assets/vmlinux.bin");
    assert_eq!(i.work_dir, "/work/vm-7-aaaaaa");
    assert_eq!(i.overlay_disk, "/work/vm-7-aaaaaa/vm-7-aaaaaa.overlay.ext4");
    assert_eq!(i.new_snapshot(5).mem_path, "/work/vm-7-aaaaaa/vm-7-aaaaaa_snapshot.mem");
    assert_eq!(i.state, VmState::Creating);
    let mut odd = config(VmMode::Permanent);
    odd.image = "windows".to_string();
    let e = VmInstance::new(odd, "/assets", "/work").unwrap_err();
    assert!(matches!(e, Error::InvalidImage(_)));
}

#[test]
fn boot_args_carry_the_address() {
    let mut i = ready(config(VmMode::Permanent));
    assert_eq!(
        setup::boot_args(&i),
        "console=ttyS0 reboot=k panic=1 pci=on nomodules \
         ip=172.16.0.2::172.16.0.1:255.255.255.0::eth0:off"
    );
    i.net = None;
    assert_eq!(setup::boot_args(&i), "console=ttyS0 reboot=k panic=1 pci=on nomodules");
}

#[test]
fn machines_are_configured_in_order() {
    let steps = setup::configure_vm(&ready(config(VmMode::Permanent)));
    let paths: Vec<&str> = steps
        .iter()
        .map(|s| match s {
            SetupStep::Put { path, .. } => path.as_str(),
            SetupStep::CreateDisk { .. } => "disk",
            SetupStep::Seed(_) => "seed",
            SetupStep::Fail(_) => "fail",
        })
        .collect();
    assert_eq!(
        paths,
        vec![
            "/boot-source",
            "/machine-config",
            "/drives/rootfs",
            "disk",
            "/drives/overlay",
            "/serial",
            "/vsock",
            "/network-interfaces/eth0",
        ]
    );
    let disk = steps.iter().find_map(|s| match s {
        SetupStep::CreateDisk { size_bytes, .. } => Some(*size_bytes),
        _ => None,
    });
    assert_eq!(disk, Some(1024 * 1024 * 1024));
}

#[test]
fn volumes_are_mounted_by_a_seeded_unit() {
    let mut c = config(VmMode::Permanent);
    c.block_storage = Some(BlockStorageConfig {
        size_mb: 128,
        chunk_kb: None,
        mount_path: "/mnt/tikovm-data".to_string(),
    });
    let plan = setup::seed_overlay_disk(&ready(c)).unwrap();
    assert_eq!(plan.mount_point, "/work/vm-7-aaaaaa/seed.mnt");
    assert_eq!(plan.umount, vec!["umount".to_string(), plan.mount_point.clone()]);
    assert!(plan.steps.iter().any(|s| matches!(
        s,
        SeedStep::Symlink { target, .. } if target == "../mnt-tikovm\\x2ddata.mount"
    )));
    assert!(plan.steps.iter().any(|s| matches!(
        s,
        SeedStep::Write { contents, .. } if contents.contains("Where=/mnt/tikovm-data\n")
    )));
    assert!(setup::seed_overlay_disk(&ready(config(VmMode::Permanent))).is_none());
}

#[test]
fn postgres_admits_its_subnet() {
    let mut c = config(VmMode::Permanent);
    c.image = "postgres-16".to_string();
    let mut i = ready(c);
    let plan = setup::seed_overlay_disk(&i).unwrap();
    assert!(plan.steps.iter().any(|s| matches!(
        s,
        SeedStep::Write { contents, .. }
            if contents.ends_with("host all all 172.16.0.0/24 scram-sha-256\n")
    )));
    i.net = None;
    let plan = setup::seed_overlay_disk(&i).unwrap();
    assert!(plan.steps.iter().any(|s| matches!(s, SeedStep::Fail(Error::Net(_)))));
}

#[test]
fn sockets_are_awaited() {
    assert!(matches!(setup::on_socket("/s", true, true), SocketStep::Ready));
    assert!(matches!(setup::on_socket("/s", false, false), SocketStep::Poll));
    assert!(matches!(
        setup::on_socket("/s", false, true),
        SocketStep::Failed(Error::Vmm(m))
            if m == "Firecracker API socket /s did not appear within 5s"
    ));
}

#[test]
fn binaries_are_looked_up() {
    let dirs = vec!["/usr/bin".to_string(), "/opt".to_string()];
    assert_eq!(setup::from_path_or_env("fc", Some("/x/fc"), &dirs, &[true, true]), "/x/fc");
    assert_eq!(setup::from_path_or_env("fc", None, &dirs, &[false, true]), "/opt/fc");
    assert_eq!(setup::from_path_or_env("fc", None, &dirs, &[false, false]), "fc");
}

#[test]
fn failing_tools_are_reported() {
    let e = setup::tool_failed("mount", &["-o".to_string(), "a\"b".to_string()], "exit status: 1");
    assert_eq!(e.message(), "vmm error: mount [\"-o\", \"a\\\"b\"] failed: exit status: 1");
    let e = setup::seed_outcome(
        Err(Error::Vmm("seed".to_string())),
        Err(Error::Vmm("umount".to_string())),
    );
    assert_eq!(e.unwrap_err().message(), "vmm error: seed");
    assert!(setup::seed_outcome(Ok(()), Err(Error::Vmm("umount".to_string()))).is_err());
    assert!(setup::seed_outcome(Ok(()), Ok(())).is_ok());
    assert_eq!(setup::mkfs_failed("/d", "x").message(), "vmm error: mkfs.ext4 /d failed: x");
    assert_eq!(setup::spawn_failed("fc", "gone").message(), "vmm error: spawn fc: gone");
}

// --- creation ---------------------------------------------------------------

fn refusal(c: VmConfig) -> String {
    match create::validate(&c) {
        Err(Error::Vmm(m)) => m,
        other => panic!("{other:?}"),
    }
}

#[test]
fn requests_are_validated() {
    assert!(create::validate(&config(VmMode::Ephemeral)).is_ok());
    assert!(create::validate(&suspending(60)).is_ok());
    assert!(create::validate(&scheduled("* * * * *")).is_ok());

    let mut c = suspending(60);
    c.mode = VmMode::Ephemeral;
    assert_eq!(refusal(c), "auto_suspend is only supported for permanent VMs");
    let mut c = scheduled("* * * * *");
    c.cmd = vec![];
    assert_eq!(refusal(c), "schedule VMs require a non-empty cmd");
    let mut c = scheduled("* * * * *");
    c.cron_schedule = None;
    assert_eq!(refusal(c), "schedule VMs require a cron_schedule");
    assert!(refusal(scheduled("garbage")).starts_with("invalid cron_schedule \"garbage\": "));
    let mut c = config(VmMode::Permanent);
    c.timeout_secs = Some(1);
    assert_eq!(
        refusal(c),
        "cron_schedule and timeout_secs are only supported for schedule VMs"
    );
    let mut c = config(VmMode::Permanent);
    c.cmd = vec!["x".to_string()];
    assert_eq!(refusal(c), "cmd is only supported for schedule VMs");
}

fn with_volume(size_mb: u32, chunk_kb: Option<u32>, path: &str) -> VmConfig {
    let mut c = config(VmMode::Permanent);
    c.block_storage =
        Some(BlockStorageConfig { size_mb, chunk_kb, mount_path: path.to_string() });
    c
}

#[test]
fn volumes_are_validated() {
    assert!(create::validate(&with_volume(128, Some(256), "/mnt/d_1-x.y")).is_ok());
    assert!(create::validate(&with_volume(128, None, "")).is_ok());
    assert_eq!(refusal(with_volume(127, None, "/d")), "block_storage size_mb must be >= 128");
    assert_eq!(
        refusal(with_volume(128, Some(300), "/d")),
        "block_storage chunk_kb must be one of [256, 512, 1024, 2048, 4096]"
    );
    for bad in ["d", "/", "/D", "/a b", "/a;b"] {
        assert_eq!(
            refusal(with_volume(128, None, bad)),
            "block_storage mount_path must be an absolute path of [a-z0-9/_-.]",
            "{bad}"
        );
    }
}

#[test]
fn postgres_brings_its_idle_check() {
    let mut c = suspending(60);
    c.image = "postgres-16".to_string();
    let own = create::with_image_defaults(c);
    assert_eq!(own.auto_suspend.unwrap().idle_check_cmd, vec!["/bin/idle".to_string()]);
    let mut c = suspending(60);
    c.image = "postgres-16".to_string();
    c.auto_suspend.as_mut().unwrap().idle_check_cmd = vec![];
    let c = create::with_image_defaults(c);
    assert_eq!(c.auto_suspend.unwrap().idle_check_cmd, vec![PG_IDLE_CHECK.to_string()]);
}

#[test]
fn failed_creations_are_undone() {
    let mut c = Creation::new(with_volume(128, None, "/d"), "/assets", "/work").unwrap();
    assert!(c.undo().is_empty());
    c.advance(CreateEvent::Done);
    assert!(c.undo().is_empty());
    c.advance(CreateEvent::Network { net: net(), guest_cid: 3 });
    assert_eq!(c.undo(), vec![UndoStep::ReleaseNetwork, UndoStep::RemoveDirectory]);
    c.advance(CreateEvent::Volume { device: "/dev/ublkb0".to_string() });
    assert_eq!(c.phase, CreatePhase::Process);
    assert!(c.undo().contains(&UndoStep::DetachVolume));
    c.advance(CreateEvent::Done);
    assert!(c.undo().contains(&UndoStep::KillProcess));
    assert_eq!(c.instance.block_device.as_deref(), Some("/dev/ublkb0"));
}

#[test]
fn ids_are_random_and_readable() {
    let id = VmId::new_random(7);
    assert!(id.0.starts_with("vm-7-"));
    assert_eq!(id.0.len(), "vm-7-".len() + utils::ID_LEN);
    assert!(id.0["vm-7-".len()..].chars().all(|c| utils::ID_CHARSET.contains(c)));
    assert_ne!(VmId::new_random(7).0, id.0);
    assert_eq!(utils::compose_id("vm-7", "abc"), "vm-7-abc");
}

#[test]
fn guest_cids_are_not_shared() {
    let mut vmm = vmm();
    assert_eq!((vmm.next_guest_cid(), vmm.next_guest_cid()), (3, 4));
}

// --- lifecycle --------------------------------------------------------------

#[test]
fn states_move_as_documented() {
    assert!(VmState::Started.is_stable() && !VmState::Pausing.is_stable());
    assert!(VmState::Destroyed.is_terminal() && !VmState::Suspended.is_terminal());
    assert!(VmState::Created.can_transition_to(VmState::Starting));
    assert!(!VmState::Started.can_transition_to(VmState::Paused));
    assert!(VmState::Suspending.can_transition_to(VmState::Started));
    assert!(VmState::Suspending.can_transition_to(VmState::Paused));
    assert!(!VmState::Suspending.can_transition_to(VmState::Created));
    assert!(!VmState::Destroyed.can_transition_to(VmState::Starting));
    let mut s = VmState::Created;
    let e = s.transition(VmState::Paused).unwrap_err();
    assert_eq!(e.message(), "invalid VM state transition: Created -> Paused");
    assert_eq!(s, VmState::Created);
    s.transition(VmState::Starting).unwrap();
    assert_eq!(s, VmState::Starting);
}

#[test]
fn starting_runs_the_instance() {
    let mut vmm = vmm();
    let id = created(&mut vmm, config(VmMode::Permanent));
    assert_eq!(vmm.vm_state(&id), Some(VmState::Created));
    let plan = vmm.start_vm(&id).unwrap();
    assert_eq!(vmm.vm_state(&id), Some(VmState::Starting));
    match &plan.steps[0] {
        FcStep::Put { path, fields } => {
            assert_eq!(path, "/actions");
            assert_eq!(text_of(fields, "action_type"), "InstanceStart");
        }
        other => panic!("{other:?}"),
    }
    // A second operation has to wait.
    assert!(matches!(vmm.start_vm(&id), Err(Error::InvalidStateTransition { .. })));
    vmm.finish(plan, Ok(()), 0).unwrap();
    assert_eq!(vmm.vm_state(&id), Some(VmState::Started));
}

#[test]
fn failed_starts_go_back() {
    let mut vmm = vmm();
    let id = created(&mut vmm, config(VmMode::Permanent));
    let plan = vmm.start_vm(&id).unwrap();
    let e = vmm.finish(plan, Err(Error::Io("gone".to_string())), 0).unwrap_err();
    assert_eq!(e.message(), "IO error: gone");
    assert_eq!(vmm.vm_state(&id), Some(VmState::Created));
}

#[test]
fn pausing_and_resuming() {
    let mut vmm = vmm();
    let id = started(&mut vmm, config(VmMode::Permanent));
    let plan = vmm.pause_vm(&id).unwrap();
    vmm.finish(plan, Ok(()), 0).unwrap();
    assert_eq!(vmm.vm_state(&id), Some(VmState::Paused));
    let plan = vmm.resume_vm(&id).unwrap();
    vmm.finish(plan, Ok(()), 0).unwrap();
    assert_eq!(vmm.vm_state(&id), Some(VmState::Started));
}

#[test]
fn failed_snapshots_go_back_to_where_they_began() {
    let mut vmm = vmm();
    let id = started(&mut vmm, config(VmMode::Permanent));
    let plan = vmm.snapshot_vm(&id, 0).unwrap();
    match plan.on_failure.as_slice() {
        [FcStep::Patch { path, fields }] => {
            assert_eq!(path, "/vm");
            assert_eq!(text_of(fields, "state"), "Resumed");
        }
        other => panic!("{other:?}"),
    }
    assert!(vmm.finish(plan, Err(Error::Io("full".to_string())), 0).is_err());
    assert_eq!(vmm.vm_state(&id), Some(VmState::Started));

    let plan = vmm.pause_vm(&id).unwrap();
    vmm.finish(plan, Ok(()), 0).unwrap();
    let plan = vmm.snapshot_vm(&id, 0).unwrap();
    assert!(plan.on_failure.is_empty());
    assert!(vmm.finish(plan, Err(Error::Io("full".to_string())), 0).is_err());
    assert_eq!(vmm.vm_state(&id), Some(VmState::Paused));
    assert!(vmm.get_vm(&id).unwrap().snapshot.is_none());
    let plan = vmm.snapshot_vm(&id, 0).unwrap();
    vmm.finish(plan, Ok(()), 0).unwrap();
    assert_eq!(vmm.vm_state(&id), Some(VmState::Suspended));
}

#[test]
fn snapshots_are_restored() {
    let mut vmm = vmm();
    let id = created(&mut vmm, suspending(60));
    let e = vmm.restore_vm(&id).unwrap_err();
    assert!(e.message().ends_with("has no snapshot"));
    let plan = vmm.start_vm(&id).unwrap();
    vmm.finish(plan, Ok(()), 0).unwrap();
    let plan = vmm.snapshot_vm(&id, 77).unwrap();
    let done = vmm.finish(plan, Ok(()), 0).unwrap();
    assert_eq!(done.snapshot.unwrap().created_at, 77);
    assert_eq!(vmm.vm_state(&id), Some(VmState::Suspended));
    let plan = vmm.restore_vm(&id).unwrap();
    assert!(plan.steps.iter().any(|s| matches!(s, FcStep::Spawn)));
    let done = vmm.finish(plan, Ok(()), 1000).unwrap();
    assert!(done.arm_detector);
    assert_eq!(vmm.vm_state(&id), Some(VmState::Started));
}

#[test]
fn wakes_wait_for_what_is_in_flight() {
    let mut vmm = vmm();
    let id = started(&mut vmm, config(VmMode::Permanent));
    assert!(matches!(vmm.ensure_started(&id, false), WakeStep::Ready));
    let plan = vmm.snapshot_vm(&id, 0).unwrap();
    assert!(matches!(vmm.ensure_started(&id, false), WakeStep::Wait));
    assert!(matches!(vmm.ensure_started(&id, true), WakeStep::Failed(Error::Vmm(m))
        if m.ends_with("is still Suspending after 30s")));
    vmm.finish(plan, Ok(()), 0).unwrap();
    assert!(matches!(vmm.ensure_started(&id, false), WakeStep::Restore));
    let none = VmId::from("vm-1-none");
    assert!(matches!(vmm.ensure_started(&none, false), WakeStep::Failed(Error::VmNotFound(_))));
    let fresh = created(&mut vmm, config(VmMode::Permanent));
    assert!(matches!(vmm.ensure_started(&fresh, false), WakeStep::Failed(Error::Vmm(m))
        if m.ends_with("is Created; only a suspended vm can be woken")));
}

#[test]
fn destroyed_vms_give_all_back() {
    let mut vmm = vmm();
    let id = started(&mut vmm, with_volume(128, None, "/d"));
    vmm.activity.track(&id, 1);
    assert_eq!(vmm.list_vms().len(), 1);
    let (entry, steps) = vmm.destroy_vm(&id).unwrap();
    assert_eq!(entry.instance.vm_id.0, id.0);
    for s in [
        DestroyStep::KillProcess,
        DestroyStep::ReleaseNetwork,
        DestroyStep::DetachVolume,
        DestroyStep::RemoveDirectory,
    ] {
        assert!(steps.contains(&s), "{s:?}");
    }
    assert!(vmm.get_vm(&id).is_none());
    assert_eq!(vmm.activity.in_flight(&id), 0);
    assert!(matches!(vmm.destroy_vm(&id), Err(Error::VmNotFound(_))));
}

// --- auto suspend -----------------------------------------------------------

#[test]
fn busy_vms_stay_up() {
    let mut vmm = vmm();
    let id = started(&mut vmm, suspending(60));
    assert!(vmm.auto_suspend_gate(&id, 60_000));
    let guard = vmm.activity.track(&id, 0);
    assert!(!vmm.auto_suspend_gate(&id, 60_000));
    vmm.activity.finish(guard, 0);
    assert!(vmm.auto_suspend_gate(&id, 60_000));
    let w = Workload::new(&id, spec());
    vmm.start_workload(&id, w).unwrap();
    assert!(!vmm.auto_suspend_gate(&id, 60_000));
    let other = started(&mut vmm, config(VmMode::Permanent));
    assert!(!vmm.auto_suspend_gate(&other, 60_000));
}

#[test]
fn woken_vms_get_their_idle_time() {
    let mut vmm = vmm();
    let id = suspended(&mut vmm, suspending(60));
    let plan = vmm.restore_vm(&id).unwrap();
    vmm.finish(plan, Ok(()), 1000).unwrap();
    assert!(!vmm.auto_suspend_gate(&id, 60_999));
    assert!(vmm.auto_suspend_gate(&id, 61_000));
}

#[test]
fn idle_http_vms_are_found() {
    let mut vmm = vmm();
    let mut c = suspending(60);
    c.network_config.exposed_ports.push(ExposedPort { port: 80, label: "web".to_string() });
    let id = started(&mut vmm, c);
    started(&mut vmm, suspending(60));
    let guard = vmm.activity.track(&id, 1000);
    vmm.activity.finish(guard, 2000);
    assert!(!vmm.http_idle_expired(&id, 61_999));
    assert!(vmm.http_idle_expired(&id, 62_000));
    let idle = vmm.check_http_idle_vms(62_000);
    assert_eq!(idle.len(), 1);
    assert_eq!(idle[0].0, id.0);
}

// --- workloads --------------------------------------------------------------

#[test]
fn workloads_need_a_started_vm() {
    let mut vmm = vmm();
    let id = created(&mut vmm, config(VmMode::Permanent));
    let e = vmm.check_workload(&id, &spec()).unwrap_err();
    assert!(e.message().ends_with("is Created; workloads require a started vm"));
    let empty = WorkloadSpec { cmd: vec![], env: vec![], cwd: None };
    let e = vmm.check_workload(&id, &empty).unwrap_err();
    assert_eq!(e.message(), "vmm error: workload cmd must not be empty");
    assert!(matches!(
        vmm.check_workload(&VmId::from("vm-1-none"), &spec()),
        Err(Error::VmNotFound(_))
    ));
}

#[test]
fn workloads_run_and_exit() {
    let mut vmm = vmm();
    let id = started(&mut vmm, config(VmMode::Permanent));
    let w = Workload::new(&id, spec());
    let wid = w.workload_id.clone();
    assert_eq!(w.origin, WorkloadOrigin::Manual);
    match vmm.start_workload(&id, w).unwrap() {
        GuestRequest::Start { workload_id, cmd, env, cwd } => {
            assert_eq!(workload_id, wid.0);
            assert_eq!(cmd, vec!["/bin/true".to_string()]);
            assert_eq!(env, vec![("A".to_string(), "b".to_string())]);
            assert_eq!(cwd.as_deref(), Some("/srv"));
        }
        other => panic!("{other:?}"),
    }
    vmm.tag_scheduled(&id, &wid);
    let event = GuestEvent::Started { workload_id: wid.0.clone(), pid: 9 };
    assert!(matches!(vmm.handle_guest_event(&id, "/logs", event, 1), EventAction::Nothing));
    let w = vmm.get_workload(&id, &wid).unwrap();
    assert_eq!((w.state, w.pid, w.started_at), (WorkloadState::Running, Some(9), Some(1)));
    assert_eq!(w.origin, WorkloadOrigin::Schedule);

    let event = GuestEvent::Output {
        workload_id: wid.0.clone(),
        stream: "stdout".to_string(),
        data: "hi".to_string(),
    };
    match vmm.handle_guest_event(&id, "/logs", event, 2) {
        EventAction::AppendLog { path, stream, data } => {
            assert_eq!(path, format!("/logs/{}.log", wid.0));
            assert_eq!((stream.as_str(), data.as_str()), ("stdout", "hi"));
        }
        other => panic!("{other:?}"),
    }

    let event =
        GuestEvent::Exited { workload_id: wid.0.clone(), exit_code: Some(0), signal: None };
    vmm.handle_guest_event(&id, "/logs", event, 3);
    let w = vmm.get_workload(&id, &wid).unwrap();
    assert_eq!((w.state, w.exit_code, w.finished_at), (WorkloadState::Exited, Some(0), Some(3)));
    let e = vmm.stop_workload(&id, &wid).unwrap_err();
    assert!(e.message().ends_with("only active workloads can be stopped"));
    assert_eq!(vmm.list_workloads(&id).unwrap().len(), 1);
    assert!(vmm.workload_logs(&id, &wid).unwrap().ends_with(&format!("/{}.log", wid.0)));
}

#[test]
fn stopped_workloads_say_so() {
    let mut vmm = vmm();
    let id = started(&mut vmm, config(VmMode::Permanent));
    let w = Workload::new(&id, spec());
    let wid = w.workload_id.clone();
    vmm.start_workload(&id, w).unwrap();
    assert!(matches!(vmm.stop_workload(&id, &wid).unwrap(), GuestRequest::Stop { .. }));
    vmm.cancel_stop(&id, &wid);
    assert!(!vmm.get_workload(&id, &wid).unwrap().stop_requested);
    vmm.stop_workload(&id, &wid).unwrap();
    let event =
        GuestEvent::Exited { workload_id: wid.0.clone(), exit_code: None, signal: Some(15) };
    vmm.handle_guest_event(&id, "/logs", event, 3);
    assert_eq!(vmm.get_workload(&id, &wid).unwrap().state, WorkloadState::Stopped);
    let none = WorkloadId("wl-none".to_string());
    assert!(matches!(vmm.get_workload(&id, &none), Err(Error::WorkloadNotFound(_))));
    vmm.forget_workload(&id, &wid);
    assert!(vmm.list_workloads(&id).unwrap().is_empty());
}

#[test]
fn refused_workloads_fail() {
    let mut vmm = vmm();
    let id = started(&mut vmm, config(VmMode::Permanent));
    let w = Workload::new(&id, spec());
    let wid = w.workload_id.clone();
    vmm.start_workload(&id, w).unwrap();
    let event =
        GuestEvent::Error { workload_id: Some(wid.0.clone()), message: "no".to_string() };
    vmm.handle_guest_event(&id, "/logs", event, 3);
    assert_eq!(vmm.get_workload(&id, &wid).unwrap().state, WorkloadState::Failed);
}

#[test]
fn reconnects_catch_up() {
    let mut vmm = vmm();
    let id = started(&mut vmm, suspending(60));
    let w = Workload::new(&id, spec());
    let wid = w.workload_id.clone();
    vmm.start_workload(&id, w).unwrap();
    assert!(matches!(vmm.guest_conn(&id).unwrap(), ConnNeed::Connect { .. }));
    let hello = vmm.install_guest_conn(&id, 1).unwrap();
    assert!(matches!(hello[0], GuestRequest::List));
    assert!(matches!(
        &hello[1],
        GuestRequest::ConfigureAutoSuspend { check_interval_secs: 15, .. }
    ));
    assert!(matches!(vmm.guest_conn(&id).unwrap(), ConnNeed::Live(1)));
    let event = GuestEvent::ListResult {
        workloads: vec![GuestWorkloadInfo {
            workload_id: wid.0.clone(),
            state: "exited".to_string(),
            exit_code: Some(2),
            signal: None,
        }],
    };
    vmm.handle_guest_event(&id, "/logs", event, 3);
    assert_eq!(vmm.get_workload(&id, &wid).unwrap().exit_code, Some(2));
    // The end of an older connection does not take a newer one down.
    vmm.install_guest_conn(&id, 2).unwrap();
    vmm.guest_conn_closed(&id, 1);
    assert!(matches!(vmm.guest_conn(&id).unwrap(), ConnNeed::Live(2)));
    vmm.guest_conn_closed(&id, 2);
    assert!(matches!(vmm.guest_conn(&id).unwrap(), ConnNeed::Connect { .. }));
    assert!(matches!(
        vmm.handle_guest_event(&id, "/logs", GuestEvent::Idle, 4),
        EventAction::ReportIdle
    ));
}

#[test]
fn ports_are_exposed_on_a_vm() {
    let mut vmm = vmm();
    let id = created(&mut vmm, config(VmMode::Permanent));
    let port = || ExposedPort { port: 80, label: "web".to_string() };
    vmm.add_exposed_port(&id, port()).unwrap();
    assert_eq!(vmm.list_exposed_ports(&id).unwrap(), &vec![port()]);
    let e = vmm.add_exposed_port(&id, port()).unwrap_err();
    assert_eq!(e.message(), format!("port 80 is already exposed on vm {}", id.0));
    vmm.remove_exposed_port(&id, 80).unwrap();
    let e = vmm.remove_exposed_port(&id, 80).unwrap_err();
    assert_eq!(e.message(), format!("port 80 is not exposed on vm {}", id.0));
    let none = VmId::from("vm-1-none");
    assert!(matches!(vmm.list_exposed_ports(&none), Err(Error::VmNotFound(_))));
}

// --- the Firecracker API ----------------------------------------------------

#[test]
fn requests_are_plain_http() {
    let text = fc_api::object_request(
        "PATCH",
        "/vm",
        &[JsonField { name: "state".to_string(), value: JsonValue::Text("Paused".to_string()) }],
    );
    assert_eq!(
        text,
        "PATCH /vm HTTP/1.1\r\nHost: localhost\r\nContent-Type: application/json\r\n\
         Content-Length: 18\r\nConnection: close\r\n\r\n{\"state\":\"Paused\"}"
    );
}

#[test]
fn headers_end_at_an_empty_line() {
    assert_eq!(fc_api::on_header_byte(b"HTTP/1.1 200 OK\r\n"), HeaderStep::More);
    assert_eq!(fc_api::on_header_byte(b"HTTP/1.1 200 OK\r\n\r\n"), HeaderStep::Complete);
    assert_eq!(fc_api::on_header_byte(&vec![b'x'; 9000]), HeaderStep::TooLarge);
    let head = fc_api::parse_head(b"HTTP/1.1 204 No Content\r\nCoNtEnT-LeNgTh: 12\r\n\r\n");
    assert_eq!((head.status, head.content_length), (204, 12));
    let head = fc_api::parse_head(b"HTTP/1.1 200 OK\r\n\r\n");
    assert_eq!((head.status, head.content_length), (200, 0));
}

#[test]
fn faults_are_reported() {
    assert_eq!(fc_api::read_reply("PUT", "/a", 204, b"").unwrap(), "");
    let e = fc_api::read_reply("PUT", "/a", 400, b"{\"fault_message\":\"bad\"}").unwrap_err();
    assert_eq!(e.message(), "IO error: FC API PUT /a: bad");
    let e = fc_api::read_reply("PUT", "/a", 400, b"oops").unwrap_err();
    assert_eq!(e.message(), "IO error: FC API PUT /a: HTTP 400: oops");
}

#[test]
fn instances_are_polled_until_running() {
    let info = |s: &str, late| fc_api::on_instance_info(s, late, 5);
    assert!(matches!(info("{\"state\":\"Running\"}", true), RunningStep::Running));
    assert!(matches!(info("{\"state\":\"Paused\"}", false), RunningStep::Poll));
    assert!(matches!(info("not json", false), RunningStep::Failed(_)));
    match info("{\"state\":\"Paused\"}", true) {
        RunningStep::Failed(e) => assert!(e
            .message()
            .ends_with("VM did not reach Running state within 5s (last state: \"Paused\")")),
        other => panic!("{other:?}"),
    }
}

// --- vsock ------------------------------------------------------------------

#[test]
fn handshakes_end_at_a_newline() {
    assert_eq!(vsock::connect_request(), "CONNECT 5000\n");
    let mut line = Vec::new();
    for b in b"OK 1" {
        assert!(matches!(vsock::on_handshake_byte(&mut line, Some(*b)), HandshakeStep::More));
    }
    assert!(matches!(
        vsock::on_handshake_byte(&mut line, Some(b'\n')),
        HandshakeStep::Complete
    ));
    assert!(vsock::judge_handshake("/v", &line).is_ok());
    assert!(matches!(vsock::on_handshake_byte(&mut line, None), HandshakeStep::Failed(_)));
    let e = vsock::judge_handshake("/v", b"NO").unwrap_err();
    assert_eq!(e.message(), "vmm error: vsock handshake with /v failed: NO");
}

#[test]
fn connects_are_retried_for_a_while() {
    let refused = || Err(Error::Io("refused".to_string()));
    assert!(matches!(vsock::on_connect(1, Ok(())), ConnectStep::Connected));
    assert!(matches!(vsock::on_connect(1, refused()), ConnectStep::Retry));
    assert!(matches!(
        vsock::on_connect(vsock::CONNECT_TRIES, refused()),
        ConnectStep::Failed(_)
    ));
}

#[test]
fn a_clock_before_the_epoch_reads_as_the_epoch() {
    assert_eq!(clock::epoch_millis(1_700_000_000_123), 1_700_000_000_123);
    assert_eq!(clock::epoch_millis(0), 0);
    assert_eq!(clock::epoch_millis(-1), 0);
    assert_eq!(clock::epoch_millis(i64::MIN), 0);
    assert_eq!(clock::epoch_millis(i64::MAX), 9_223_372_036_854_775_807);
}
