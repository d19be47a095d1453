//! VM records: what a VM was asked to be, and what it is.

use vstd::prelude::*;

use crate::clock;
use crate::error::Error;
use crate::net::types::{NetworkConfig, VmNet};
use crate::text;
use crate::vmm::state::VmState;
use crate::vmm::utils::random_id;

verus! {

/// The name of a VM.
#[derive(Debug, PartialEq, Eq, Hash)]
pub struct VmId(pub String);

impl VmId {
    /// The VM of the given name.
    pub fn from(value: &str) -> (id: VmId)
        ensures
            id.0@ == value@,
    {
        VmId(value.to_owned())
    }

    /// A random name for a VM of a project, like `vm-7-x7k2pq`.
    pub fn new_random(project_id: u64) -> (id: VmId)
        ensures
            exists|suffix: Seq<char>|
                crate::vmm::utils::id_suffix(suffix) && id.0@ == "vm-"@ + text::decimal(
                    project_id as nat,
                ) + "-"@ + suffix,
    {
        VmId(random_id(&text::cat2("vm-", &text::decimal_string(project_id))))
    }
}

impl Clone for VmId {
    fn clone(&self) -> (id: Self)
        ensures
            id == *self,
    {
        VmId(self.0.clone())
    }
}

/// What a VM is for.
#[derive(Debug, Clone, Copy, PartialEq, Eq, Structural)]
pub enum VmMode {
    Ephemeral,
    Permanent,
    Schedule,
}

impl Default for VmMode {
    fn default() -> (m: Self)
        ensures
            m == VmMode::Ephemeral,
    {
        VmMode::Ephemeral
    }
}

/// Auto-suspend policy of a permanent VM.
#[derive(Debug)]
pub struct AutoSuspendConfig {
    /// Suspend after this many seconds without a proxied request. Also the
    /// cooldown after a wake before any suspend.
    pub idle_timeout_secs: u64,
    /// A program that the guest agent runs now and then; exit status 0 reports
    /// the guest as idle. Empty switches that detector off.
    pub idle_check_cmd: Vec<String>,
    /// How often the program is run.
    pub check_interval_secs: u64,
}

/// How often the idle check runs if the request does not say.
pub fn default_check_interval_secs() -> (secs: u64)
    ensures
        secs == 30,
{
    30
}

/// Dedicated block volume of a VM, attached as its third drive and mounted in
/// the guest. It dies with the VM.
#[derive(Debug)]
pub struct BlockStorageConfig {
    /// Volume size in MiB (at least 128).
    pub size_mb: u32,
    /// Chunk size in KiB.
    pub chunk_kb: Option<u32>,
    /// Guest mount point. Empty attaches the device raw.
    pub mount_path: String,
}

/// Where a volume is mounted if the request does not say.
pub fn default_mount_path() -> (path: String)
    ensures
        path@ == "/mnt/tikovm-data"@,
{
    "/mnt/tikovm-data".to_owned()
}

/// An environment variable.
#[derive(Debug)]
pub struct EnvVar {
    pub key: String,
    pub value: String,
}

/// A VM's snapshot files.
#[derive(Debug)]
pub struct VmSnapshot {
    pub state_path: String,
    pub mem_path: String,
    /// When it was taken, in milliseconds since the Unix epoch.
    pub created_at: u64,
}

impl Clone for VmSnapshot {
    fn clone(&self) -> (s: Self)
        ensures
            s == *self,
    {
        VmSnapshot {
            state_path: self.state_path.clone(),
            mem_path: self.mem_path.clone(),
            created_at: self.created_at,
        }
    }
}

/// What a VM was asked to be.
#[derive(Debug)]
pub struct VmConfig {
    pub name: String,
    pub project_id: u64,
    pub mode: VmMode,
    pub image: String,
    pub cpus: u32,
    pub memory_mb: u32,
    pub disk_size_mb: u32,
    pub network_config: NetworkConfig,
    pub ssh_access: bool,
    pub env: Vec<EnvVar>,
    /// Command that a schedule VM runs on every cron fire.
    pub cmd: Vec<String>,
    pub services: Vec<String>,
    /// Cron expression of a schedule VM, in UTC.
    pub cron_schedule: Option<String>,
    /// How long a scheduled command may run.
    pub timeout_secs: Option<u64>,
    pub tags: Vec<String>,
    /// Auto-suspend policy, for permanent VMs.
    pub auto_suspend: Option<AutoSuspendConfig>,
    /// Dedicated block volume.
    pub block_storage: Option<BlockStorageConfig>,
}

/// The root file system of an image.
pub open spec fn rootfs_of(image: Seq<char>) -> Option<Seq<char>> {
    if image == "node-22"@ {
        Some("node-22-rootfs.ext4"@)
    } else if image == "postgres-16"@ {
        Some("postgres-16-rootfs.ext4"@)
    } else if image == "python-3.12"@ {
        Some("python-3.12-rootfs.ext4"@)
    } else if image == "s3files"@ {
        Some("s3files-rootfs.ext4"@)
    } else if image == "tiko-postgres"@ {
        Some("tiko-postgres-rootfs.ext4"@)
    } else if image == "ubuntu-24"@ {
        Some("ubuntu-24.04-rootfs.ext4"@)
    } else {
        None
    }
}

/// The root file system of an image.
fn rootfs_name(image: &str) -> (name: Option<&'static str>)
    ensures
        match name {
            Some(n) => rootfs_of(image@) == Some(n@),
            None => rootfs_of(image@) is None,
        },
{
    if text::str_eq(image, "node-22") {
        Some("node-22-rootfs.ext4")
    } else if text::str_eq(image, "postgres-16") {
        Some("postgres-16-rootfs.ext4")
    } else if text::str_eq(image, "python-3.12") {
        Some("python-3.12-rootfs.ext4")
    } else if text::str_eq(image, "s3files") {
        Some("s3files-rootfs.ext4")
    } else if text::str_eq(image, "tiko-postgres") {
        Some("tiko-postgres-rootfs.ext4")
    } else if text::str_eq(image, "ubuntu-24") {
        Some("ubuntu-24.04-rootfs.ext4")
    } else {
        None
    }
}

impl VmConfig {
    /// The root file system of the configured image.
    pub fn rootfs_file(&self) -> (r: Result<String, Error>)
        ensures
            match (r, rootfs_of(self.image@)) {
                (Ok(name), Some(want)) => name@ == want,
                (Err(Error::InvalidImage(image)), None) => image@ == self.image@,
                _ => false,
            },
    {
        match rootfs_name(&self.image) {
            Some(name) => Ok(name.to_owned()),
            None => Err(Error::InvalidImage(self.image.clone())),
        }
    }
}

/// What a VM is.
#[derive(Debug)]
pub struct VmInstance {
    pub vm_id: VmId,
    pub state: VmState,
    pub work_dir: String,
    pub socket_path: String,
    pub kernel_path: String,
    pub initramfs_path: String,
    pub boot_args: String,
    /// Shared read-only root file system, the guest's first drive.
    pub rootfs_path: String,
    /// The VM's own writable disk, the guest's second drive.
    pub overlay_disk: String,
    /// Device of the optional block volume, the guest's third drive.
    pub block_device: Option<String>,
    /// Allocated while the VM is created, before it boots.
    pub net: Option<VmNet>,
    /// Allocated while the VM is created, before it boots.
    pub guest_cid: Option<u32>,
    pub vsock_uds_path: String,
    pub snapshot: Option<VmSnapshot>,
    pub serial_log: String,
    pub error_log: String,
    /// When it was created, in milliseconds since the Unix epoch.
    pub created_at: u64,
    pub vm_config: VmConfig,
}

/// Kernel arguments of every VM.
pub const BOOT_ARGS: &'static str = "console=ttyS0 reboot=k panic=1 pci=on nomodules";

/// A file of a VM in its own directory, called after it.
pub open spec fn vm_file(work_dir: Seq<char>, vm_id: Seq<char>, suffix: Seq<char>) -> Seq<char> {
    text::path_joined(text::path_joined(work_dir, vm_id), vm_id + suffix)
}

/// Whether a VM's record is laid out as a new VM's: in state `Creating`, with
/// its files in its own directory under `work_dir` and its images from
/// `assets_dir`, and nothing allocated yet.
pub open spec fn laid_out(
    i: VmInstance,
    vm_id: Seq<char>,
    assets_dir: Seq<char>,
    work_dir: Seq<char>,
) -> bool {
    &&& i.vm_id.0@ == vm_id
    &&& i.state == VmState::Creating
    &&& i.work_dir@ == text::path_joined(work_dir, vm_id)
    &&& i.kernel_path@ == text::path_joined(assets_dir, "vmlinux.bin"@)
    &&& i.initramfs_path@ == text::path_joined(assets_dir, "initramfs.cpio.gz"@)
    &&& i.boot_args@ == BOOT_ARGS@
    &&& rootfs_of(i.vm_config.image@) is Some
    &&& i.rootfs_path@ == text::path_joined(assets_dir, rootfs_of(i.vm_config.image@)->0)
    &&& i.overlay_disk@ == vm_file(work_dir, vm_id, ".overlay.ext4"@)
    &&& i.socket_path@ == vm_file(work_dir, vm_id, ".socket"@)
    &&& i.vsock_uds_path@ == vm_file(work_dir, vm_id, ".vsock"@)
    &&& i.serial_log@ == vm_file(work_dir, vm_id, ".serial.log"@)
    &&& i.error_log@ == vm_file(work_dir, vm_id, ".stderr.log"@)
    &&& i.block_device is None
    &&& i.net is None
    &&& i.guest_cid is None
    &&& i.snapshot is None
}

impl VmInstance {
    /// A new VM with a random name.
    pub fn new(config: VmConfig, assets_dir: &str, work_dir: &str) -> (r: Result<
        VmInstance,
        Error,
    >)
        ensures
            match r {
                Ok(i) => laid_out(i, i.vm_id.0@, assets_dir@, work_dir@) && i.vm_config == config
                    && exists|suffix: Seq<char>|
                    crate::vmm::utils::id_suffix(suffix) && i.vm_id.0@ == "vm-"@ + text::decimal(
                        config.project_id as nat,
                    ) + "-"@ + suffix,
                Err(Error::InvalidImage(image)) => rootfs_of(config.image@) is None && image@
                    == config.image@,
                Err(_) => false,
            },
            r is Ok <==> rootfs_of(config.image@) is Some,
    {
        let vm_id = VmId::new_random(config.project_id);
        VmInstance::with_id(vm_id, config, assets_dir, work_dir, clock::now_millis())
    }

    /// A new VM with the given name.
    pub fn with_id(
        vm_id: VmId,
        config: VmConfig,
        assets_dir: &str,
        work_dir: &str,
        created_at: u64,
    ) -> (r: Result<VmInstance, Error>)
        ensures
            match r {
                Ok(i) => laid_out(i, vm_id.0@, assets_dir@, work_dir@) && i.vm_id == vm_id
                    && i.vm_config == config && i.created_at == created_at,
                Err(Error::InvalidImage(image)) => rootfs_of(config.image@) is None && image@
                    == config.image@,
                Err(_) => false,
            },
            r is Ok <==> rootfs_of(config.image@) is Some,
    {
        let rootfs = match config.rootfs_file() {
            Ok(name) => name,
            Err(e) => {
                return Err(e);
            },
        };
        let id = vm_id.0.as_str();
        let dir = text::path_join(work_dir, id);
        let overlay_disk = text::path_join(&dir, &text::cat2(id, ".overlay.ext4"));
        let socket_path = text::path_join(&dir, &text::cat2(id, ".socket"));
        let vsock_uds_path = text::path_join(&dir, &text::cat2(id, ".vsock"));
        let serial_log = text::path_join(&dir, &text::cat2(id, ".serial.log"));
        let error_log = text::path_join(&dir, &text::cat2(id, ".stderr.log"));
        Ok(
            VmInstance {
                vm_id,
                state: VmState::Creating,
                work_dir: dir,
                socket_path,
                kernel_path: text::path_join(assets_dir, "vmlinux.bin"),
                initramfs_path: text::path_join(assets_dir, "initramfs.cpio.gz"),
                boot_args: BOOT_ARGS.to_owned(),
                rootfs_path: text::path_join(assets_dir, &rootfs),
                overlay_disk,
                block_device: None,
                net: None,
                guest_cid: None,
                vsock_uds_path,
                snapshot: None,
                serial_log,
                error_log,
                created_at,
                vm_config: config,
            },
        )
    }

    /// Where a snapshot of this VM goes.
    pub fn new_snapshot(&self, created_at: u64) -> (s: VmSnapshot)
        ensures
            s.state_path@ == text::path_joined(self.work_dir@, self.vm_id.0@ + "_snapshot.state"@),
            s.mem_path@ == text::path_joined(self.work_dir@, self.vm_id.0@ + "_snapshot.mem"@),
            s.created_at == created_at,
    {
        VmSnapshot {
            state_path: text::path_join(
                &self.work_dir,
                &text::cat2(&self.vm_id.0, "_snapshot.state"),
            ),
            mem_path: text::path_join(&self.work_dir, &text::cat2(&self.vm_id.0, "_snapshot.mem")),
            created_at,
        }
    }
}

} // verus!
