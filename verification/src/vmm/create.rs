//! Creating a VM: which requests are taken, and what a creation goes through.

use vstd::prelude::*;

use crate::error::Error;
use crate::net::types::{TapName, VmNet};
use crate::storage::volume::chunk_kb_allowed;
use crate::text;
use crate::vmm::schedule::parse_cron_schedule;
use crate::vmm::vm::{BlockStorageConfig, VmConfig, VmInstance, VmMode};

verus! {

// ---------------------------------------------------------------------------
// Requests
// ---------------------------------------------------------------------------

/// The smallest block volume, in MiB.
pub const MIN_VOLUME_MB: u32 = 128;

/// The idle check that the PostgreSQL image ships.
pub const PG_IDLE_CHECK: &'static str = "/usr/local/bin/tikovm-pg-idle-check";

/// Whether a character may stand in a mount path.
pub open spec fn mount_char(c: char) -> bool {
    'a' <= c <= 'z' || '0' <= c <= '9' || c == '/' || c == '-' || c == '_' || c == '.'
}

/// Whether a path can be a mount point: absolute, not the root, and made of
/// mount path characters.
pub open spec fn mount_path_allowed(path: Seq<char>) -> bool {
    &&& path.len() > 1
    &&& path[0] == '/'
    &&& forall|i: int| 0 <= i < path.len() ==> mount_char(#[trigger] path[i])
}

/// Why a block volume is refused, if it is.
pub open spec fn volume_refusal(bs: BlockStorageConfig) -> Option<Seq<char>> {
    if bs.size_mb < MIN_VOLUME_MB {
        Some("block_storage size_mb must be >= 128"@)
    } else if bs.chunk_kb is Some && !crate::storage::volume::allowed_chunk_kb(bs.chunk_kb->0) {
        Some("block_storage chunk_kb must be one of [256, 512, 1024, 2048, 4096]"@)
    } else if bs.mount_path@.len() > 0 && !mount_path_allowed(bs.mount_path@) {
        Some("block_storage mount_path must be an absolute path of [a-z0-9/_-.]"@)
    } else {
        None
    }
}

/// Why the schedule of a request is refused, if it is: a schedule VM needs a
/// command and a cron expression, and what only concerns schedules is refused
/// of other VMs, so that a mistake cannot go unnoticed.
pub open spec fn schedule_refusal(c: VmConfig) -> Option<Seq<char>> {
    if c.mode is Schedule {
        if c.cmd@.len() == 0 {
            Some("schedule VMs require a non-empty cmd"@)
        } else {
            match c.cron_schedule {
                None => Some("schedule VMs require a cron_schedule"@),
                Some(expr) => match crate::vmm::schedule::cron_refusal(
                    crate::vmm::schedule::normalized(expr@),
                ) {
                    Some(why) => Some(crate::vmm::schedule::bad_cron_text(expr@, why)),
                    None => None,
                },
            }
        }
    } else if c.cron_schedule is Some || c.timeout_secs is Some {
        Some("cron_schedule and timeout_secs are only supported for schedule VMs"@)
    } else if c.cmd@.len() > 0 {
        Some("cmd is only supported for schedule VMs"@)
    } else {
        None
    }
}

/// Why a request is refused, if it is.
pub open spec fn refusal(c: VmConfig) -> Option<Seq<char>> {
    if c.auto_suspend is Some && !(c.mode is Permanent) {
        Some("auto_suspend is only supported for permanent VMs"@)
    } else {
        match schedule_refusal(c) {
            Some(why) => Some(why),
            None => match c.block_storage {
                Some(bs) => volume_refusal(bs),
                None => None,
            },
        }
    }
}

fn is_mount_char(c: char) -> (b: bool)
    ensures
        b == mount_char(c),
{
    ('a' <= c && c <= 'z') || ('0' <= c && c <= '9') || c == '/' || c == '-' || c == '_' || c == '.'
}

/// Whether a path can be a mount point.
fn is_mount_path(path: &str) -> (ok: bool)
    ensures
        ok == mount_path_allowed(path@),
{
    let chars = text::chars_of(path);
    if chars.len() <= 1 || chars[0] != '/' {
        return false;
    }
    let mut i: usize = 0;
    while i < chars.len()
        invariant
            chars@ == path@,
            i <= chars@.len(),
            forall|j: int| 0 <= j < i ==> mount_char(#[trigger] chars@[j]),
        decreases chars@.len() - i,
    {
        if !is_mount_char(chars[i]) {
            return false;
        }
        i += 1;
    }
    true
}

/// Checks a block volume.
fn check_volume(bs: &BlockStorageConfig) -> (r: Result<(), Error>)
    ensures
        match (r, volume_refusal(*bs)) {
            (Ok(()), None) => true,
            (Err(Error::Vmm(m)), Some(why)) => m@ == why,
            _ => false,
        },
{
    if bs.size_mb < MIN_VOLUME_MB {
        return Err(Error::Vmm("block_storage size_mb must be >= 128".to_owned()));
    }
    if let Some(kb) = bs.chunk_kb {
        if !chunk_kb_allowed(kb) {
            return Err(
                Error::Vmm(
                    "block_storage chunk_kb must be one of [256, 512, 1024, 2048, 4096]".to_owned(),
                ),
            );
        }
    }
    if bs.mount_path.as_str().unicode_len() > 0 && !is_mount_path(&bs.mount_path) {
        return Err(
            Error::Vmm(
                "block_storage mount_path must be an absolute path of [a-z0-9/_-.]".to_owned(),
            ),
        );
    }
    Ok(())
}

/// Checks the schedule of a request.
fn check_schedule(config: &VmConfig) -> (r: Result<(), Error>)
    ensures
        match (r, schedule_refusal(*config)) {
            (Ok(()), None) => true,
            (Err(Error::Vmm(m)), Some(why)) => m@ == why,
            _ => false,
        },
{
    if config.mode == VmMode::Schedule {
        if config.cmd.len() == 0 {
            return Err(Error::Vmm("schedule VMs require a non-empty cmd".to_owned()));
        }
        match &config.cron_schedule {
            None => Err(Error::Vmm("schedule VMs require a cron_schedule".to_owned())),
            Some(expr) => match parse_cron_schedule(expr) {
                Ok(_) => Ok(()),
                Err(e) => Err(e),
            },
        }
    } else if config.cron_schedule.is_some() || config.timeout_secs.is_some() {
        Err(
            Error::Vmm(
                "cron_schedule and timeout_secs are only supported for schedule VMs".to_owned(),
            ),
        )
    } else if config.cmd.len() > 0 {
        Err(Error::Vmm("cmd is only supported for schedule VMs".to_owned()))
    } else {
        Ok(())
    }
}

/// Checks a request for a VM.
pub fn validate(config: &VmConfig) -> (r: Result<(), Error>)
    ensures
        match (r, refusal(*config)) {
            (Ok(()), None) => true,
            (Err(Error::Vmm(m)), Some(why)) => m@ == why,
            _ => false,
        },
{
    if config.auto_suspend.is_some() && config.mode != VmMode::Permanent {
        return Err(Error::Vmm("auto_suspend is only supported for permanent VMs".to_owned()));
    }
    match check_schedule(config) {
        Err(e) => Err(e),
        Ok(()) => match &config.block_storage {
            Some(bs) => check_volume(bs),
            None => Ok(()),
        },
    }
}

/// Whether two requests are the same but for the idle check.
pub open spec fn same_but_idle_check(a: VmConfig, b: VmConfig) -> bool {
    match (a.auto_suspend, b.auto_suspend) {
        (None, None) => a == b,
        (Some(x), Some(y)) => b == (VmConfig { auto_suspend: b.auto_suspend, ..a })
            && x.idle_timeout_secs == y.idle_timeout_secs && x.check_interval_secs
            == y.check_interval_secs,
        _ => false,
    }
}

/// Whether a request leaves the idle check to the image.
pub open spec fn takes_image_idle_check(c: VmConfig) -> bool {
    c.image@ == "postgres-16"@ && c.auto_suspend is Some
        && c.auto_suspend->0.idle_check_cmd@.len() == 0
}

/// Fills in what an image defaults to: a PostgreSQL VM that may suspend gets
/// the idle check its image ships. An explicit command always wins.
pub fn with_image_defaults(config: VmConfig) -> (c: VmConfig)
    ensures
        same_but_idle_check(config, c),
        if takes_image_idle_check(config) {
            text::views(c.auto_suspend->0.idle_check_cmd@) == seq![PG_IDLE_CHECK@]
        } else {
            c == config
        },
{
    let mut config = config;
    let postgres = text::str_eq(&config.image, "postgres-16");
    if postgres {
        if let Some(auto_suspend) = &mut config.auto_suspend {
            if auto_suspend.idle_check_cmd.len() == 0 {
                auto_suspend.idle_check_cmd = vec![PG_IDLE_CHECK.to_owned()];
                proof {
                    assert(text::views(auto_suspend.idle_check_cmd@) =~= seq![PG_IDLE_CHECK@]);
                }
            }
        }
    }
    config
}

// ---------------------------------------------------------------------------
// The course of a creation
// ---------------------------------------------------------------------------

/// What a creation is at.
#[derive(Debug, Clone, Copy, PartialEq, Eq, Structural)]
pub enum CreatePhase {
    /// Make the VM's directory.
    Directory,
    /// Allocate its network, up front so that a later failure can undo it.
    Network,
    /// Attach its block volume, so that the machine can refer to the device.
    Volume,
    /// Start its Firecracker process.
    Process,
    /// Configure the machine.
    Machine,
    /// All is done; the VM can be registered.
    Ready,
}

/// What came of a phase that succeeded.
#[derive(Debug)]
pub enum CreateEvent {
    Done,
    Network { net: VmNet, guest_cid: u32 },
    Volume { device: String },
}

/// What to undo of a creation that failed.
#[derive(Debug, Clone, Copy, PartialEq, Eq, Structural)]
pub enum UndoStep {
    KillProcess,
    DetachVolume,
    ReleaseNetwork,
    RemoveDirectory,
}

/// A VM on its way to being registered. It is not registered before the end,
/// so a failure leaves nothing behind among the VMs.
#[derive(Debug)]
pub struct Creation {
    pub instance: VmInstance,
    pub phase: CreatePhase,
}

/// What follows a phase.
pub open spec fn following(phase: CreatePhase, has_volume: bool) -> CreatePhase {
    match phase {
        CreatePhase::Directory => CreatePhase::Network,
        CreatePhase::Network => if has_volume {
            CreatePhase::Volume
        } else {
            CreatePhase::Process
        },
        CreatePhase::Volume => CreatePhase::Process,
        CreatePhase::Process => CreatePhase::Machine,
        CreatePhase::Machine => CreatePhase::Ready,
        CreatePhase::Ready => CreatePhase::Ready,
    }
}

/// Whether an event can come of a phase.
pub open spec fn event_fits(phase: CreatePhase, event: CreateEvent) -> bool {
    match phase {
        CreatePhase::Network => event is Network,
        CreatePhase::Volume => event is Volume,
        CreatePhase::Ready => false,
        _ => event is Done,
    }
}

/// The VM's record after an event.
pub open spec fn recorded(i: VmInstance, event: CreateEvent) -> VmInstance {
    match event {
        CreateEvent::Done => i,
        CreateEvent::Network { net, guest_cid } => VmInstance {
            net: Some(net),
            guest_cid: Some(guest_cid),
            ..i
        },
        CreateEvent::Volume { device } => VmInstance { block_device: Some(device), ..i },
    }
}

/// What to undo when a phase fails: nothing before there is a network, and of
/// the rest exactly what was done.
pub open spec fn undo_of(i: VmInstance, phase: CreatePhase) -> Seq<UndoStep> {
    if phase is Directory || phase is Network {
        seq![]
    } else {
        (if phase is Machine || phase is Ready {
            seq![UndoStep::KillProcess]
        } else {
            seq![]
        }) + (if i.block_device is Some {
            seq![UndoStep::DetachVolume]
        } else {
            seq![]
        }) + seq![UndoStep::ReleaseNetwork, UndoStep::RemoveDirectory]
    }
}

impl Creation {
    /// Whether the record has what the phases before this one brought.
    pub open spec fn wf(self) -> bool {
        let early = self.phase is Directory || self.phase is Network;
        let has_volume = self.instance.vm_config.block_storage is Some;
        &&& self.instance.state is Creating
        &&& early ==> self.instance.net is None && self.instance.guest_cid is None
        &&& !early ==> self.instance.net is Some && self.instance.guest_cid is Some
        &&& self.phase is Volume ==> has_volume
        &&& self.instance.block_device is Some <==> has_volume && !early && !(
        self.phase is Volume)
    }

    /// Begins the creation of a VM under a random name.
    pub fn new(config: VmConfig, assets_dir: &str, work_dir: &str) -> (r: Result<Creation, Error>)
        ensures
            match r {
                Ok(c) => c.wf() && c.phase is Directory && refusal(config) is None
                    && crate::vmm::vm::laid_out(
                    c.instance,
                    c.instance.vm_id.0@,
                    assets_dir@,
                    work_dir@,
                ) && same_but_idle_check(config, c.instance.vm_config) && (
                if takes_image_idle_check(config) {
                    text::views(c.instance.vm_config.auto_suspend->0.idle_check_cmd@) == seq![
                        PG_IDLE_CHECK@,
                    ]
                } else {
                    c.instance.vm_config == config
                }) && exists|suffix: Seq<char>|
                    crate::vmm::utils::id_suffix(suffix) && c.instance.vm_id.0@ == "vm-"@
                        + text::decimal(config.project_id as nat) + "-"@ + suffix,
                Err(Error::Vmm(m)) => refusal(config) == Some(m@),
                Err(Error::InvalidImage(image)) => refusal(config) is None
                    && crate::vmm::vm::rootfs_of(config.image@) is None && image@ == config.image@,
                Err(_) => false,
            },
            r is Ok <==> refusal(config) is None && crate::vmm::vm::rootfs_of(
                config.image@,
            ) is Some,
    {
        match validate(&config) {
            Err(e) => {
                return Err(e);
            },
            Ok(()) => {},
        }
        match VmInstance::new(with_image_defaults(config), assets_dir, work_dir) {
            Ok(instance) => Ok(Creation { instance, phase: CreatePhase::Directory }),
            Err(e) => Err(e),
        }
    }

    /// The TAP device of the VM.
    pub fn tap_name(&self) -> (tap: TapName)
        ensures
            tap.0@ == crate::net::types::tap_for(self.instance.vm_id.0@),
    {
        TapName::for_vm(&self.instance.vm_id.0)
    }

    /// Takes what came of the current phase and moves on to the next.
    pub fn advance(&mut self, event: CreateEvent)
        requires
            old(self).wf(),
            event_fits(old(self).phase, event),
        ensures
            final(self).wf(),
            final(self).instance == recorded(old(self).instance, event),
            final(self).phase == following(
                old(self).phase,
                old(self).instance.vm_config.block_storage is Some,
            ),
    {
        match event {
            CreateEvent::Done => {},
            CreateEvent::Network { net, guest_cid } => {
                self.instance.net = Some(net);
                self.instance.guest_cid = Some(guest_cid);
            },
            CreateEvent::Volume { device } => {
                self.instance.block_device = Some(device);
            },
        }
        self.phase = match self.phase {
            CreatePhase::Directory => CreatePhase::Network,
            CreatePhase::Network => if self.instance.vm_config.block_storage.is_some() {
                CreatePhase::Volume
            } else {
                CreatePhase::Process
            },
            CreatePhase::Volume => CreatePhase::Process,
            CreatePhase::Process => CreatePhase::Machine,
            CreatePhase::Machine => CreatePhase::Ready,
            CreatePhase::Ready => CreatePhase::Ready,
        };
    }

    /// What to undo if the current phase fails.
    pub fn undo(&self) -> (steps: Vec<UndoStep>)
        ensures
            steps@ == undo_of(self.instance, self.phase),
    {
        let mut steps: Vec<UndoStep> = Vec::new();
        if matches!(self.phase, CreatePhase::Directory | CreatePhase::Network) {
            return steps;
        }
        if matches!(self.phase, CreatePhase::Machine | CreatePhase::Ready) {
            steps.push(UndoStep::KillProcess);
        }
        if self.instance.block_device.is_some() {
            steps.push(UndoStep::DetachVolume);
        }
        steps.push(UndoStep::ReleaseNetwork);
        steps.push(UndoStep::RemoveDirectory);
        proof {
            assert(steps@ =~= undo_of(self.instance, self.phase));
        }
        steps
    }
}

/// A failed creation gives back what it took: the network exactly if one was
/// allocated, the volume exactly if one was attached.
pub proof fn law_failed_creation_gives_back(c: Creation)
    requires
        c.wf(),
    ensures
        undo_of(c.instance, c.phase).contains(UndoStep::ReleaseNetwork) <==> c.instance.net is Some,
        undo_of(c.instance, c.phase).contains(UndoStep::DetachVolume)
            <==> c.instance.block_device is Some,
{
    let u = undo_of(c.instance, c.phase);
    if c.instance.net is Some {
        assert(u[u.len() - 2] == UndoStep::ReleaseNetwork);
        if c.instance.block_device is Some {
            assert(u[u.len() - 3] == UndoStep::DetachVolume);
        }
    }
}

/// The volume of a VM is attached before its process starts, so that the
/// machine's drives can refer to it.
pub proof fn law_volume_before_machine(c: Creation)
    requires
        c.wf(),
        c.phase is Process || c.phase is Machine || c.phase is Ready,
    ensures
        c.instance.block_device is Some <==> c.instance.vm_config.block_storage is Some,
        c.instance.net is Some,
        c.instance.guest_cid is Some,
{
}

} // verus!
