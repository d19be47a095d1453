//! Setting a VM up: the Firecracker process, its machine configuration, and
//! the files that are put on the VM's own disk before the first boot.

use vstd::prelude::*;

use crate::error::Error;
use crate::json;
use crate::json::{flag_field, number_field, text_field, JsonField, ValueView};
use crate::text;
use crate::vmm::vm::{VmConfig, VmInstance};

verus! {

/// How long the API socket of a new process may take to appear.
pub const SOCKET_WAIT_SECS: u64 = 5;

/// How often the API socket is looked for.
pub const SOCKET_POLL_MS: u64 = 50;

/// The environment variable that names the Firecracker binary.
pub const ENV_FIRECRACKER_BIN: &'static str = "FIRECRACKER_BIN";

// ---------------------------------------------------------------------------
// The process
// ---------------------------------------------------------------------------

/// The arguments of a VM's Firecracker process.
pub fn spawn_fc_process(instance: &VmInstance) -> (argv: Vec<String>)
    ensures
        text::views(argv@) == seq![
            "--api-sock"@,
            instance.socket_path@,
            "--no-seccomp"@,
            "--enable-pci"@,
            "--id"@,
            instance.vm_id.0@,
        ],
{
    let argv = text::owned(
        &[
            "--api-sock",
            instance.socket_path.as_str(),
            "--no-seccomp",
            "--enable-pci",
            "--id",
            instance.vm_id.0.as_str(),
        ],
    );
    proof {
        assert(text::views(argv@) =~= seq![
            "--api-sock"@,
            instance.socket_path@,
            "--no-seccomp"@,
            "--enable-pci"@,
            "--id"@,
            instance.vm_id.0@,
        ]);
    }
    argv
}

/// What to do while waiting for the API socket.
#[derive(Debug)]
pub enum SocketStep {
    /// The process is ready.
    Ready,
    /// Look again after [`SOCKET_POLL_MS`].
    Poll,
    /// Give up.
    Failed(Error),
}

/// What to do after looking for the API socket. One that is there counts, even
/// past the deadline.
pub fn on_socket(socket_path: &str, found: bool, past_deadline: bool) -> (step: SocketStep)
    ensures
        if found {
            step is Ready
        } else if past_deadline {
            step matches SocketStep::Failed(Error::Vmm(m)) && m@ == "Firecracker API socket "@
                + socket_path@ + " did not appear within 5s"@
        } else {
            step is Poll
        },
{
    if found {
        SocketStep::Ready
    } else if past_deadline {
        SocketStep::Failed(
            Error::Vmm(
                text::cat3("Firecracker API socket ", socket_path, " did not appear within 5s"),
            ),
        )
    } else {
        SocketStep::Poll
    }
}

/// The first file of a list, by whether it is one.
pub open spec fn first_file(dirs: Seq<Seq<char>>, is_file: Seq<bool>, binary: Seq<char>) -> Option<
    Seq<char>,
>
    decreases dirs.len(),
{
    if dirs.len() == 0 || is_file.len() == 0 {
        None
    } else if is_file[0] {
        Some(text::path_joined(dirs[0], binary))
    } else {
        first_file(dirs.skip(1), is_file.skip(1), binary)
    }
}

/// Locates a binary: an override from the environment wins, then the first
/// directory of the search path that holds it, then the bare name, left for
/// the system to resolve. `is_file[i]` tells whether `dirs[i]` holds it.
pub fn from_path_or_env(
    binary: &str,
    overridden: Option<&str>,
    dirs: &[String],
    is_file: &[bool],
) -> (path: String)
    requires
        dirs@.len() == is_file@.len(),
    ensures
        path@ == match overridden {
            Some(p) => p@,
            None => match first_file(text::views(dirs@), is_file@, binary@) {
                Some(found) => found,
                None => binary@,
            },
        },
{
    if let Some(p) = overridden {
        return p.to_owned();
    }
    let ghost all = text::views(dirs@);
    let mut i: usize = 0;
    proof {
        assert(all.skip(0) =~= all);
        assert(is_file@.skip(0) =~= is_file@);
    }
    while i < dirs.len()
        invariant
            i <= dirs@.len(),
            all == text::views(dirs@),
            dirs@.len() == is_file@.len(),
            overridden is None,
            first_file(all, is_file@, binary@) == first_file(
                all.skip(i as int),
                is_file@.skip(i as int),
                binary@,
            ),
        decreases dirs@.len() - i,
    {
        proof {
            assert(all.skip(i as int)[0] == dirs@[i as int]@);
            assert(is_file@.skip(i as int)[0] == is_file@[i as int]);
            assert(all.skip(i as int).skip(1) =~= all.skip(i as int + 1));
            assert(is_file@.skip(i as int).skip(1) =~= is_file@.skip(i as int + 1));
        }
        if is_file[i] {
            return text::path_join(&dirs[i], binary);
        }
        i += 1;
    }
    binary.to_owned()
}

// ---------------------------------------------------------------------------
// The machine
// ---------------------------------------------------------------------------

/// The kernel arguments of a VM: its address is among them, so that the
/// network is up before anything in the guest runs.
pub open spec fn boot_args_of(i: VmInstance) -> Seq<char> {
    match i.net {
        Some(net) => i.boot_args@ + " ip="@ + crate::net::cidr::ip_text(net.guest_ip) + "::"@
            + crate::net::cidr::ip_text(net.gateway_ip) + ":"@ + crate::net::cidr::ip_text(
            netmask_of(net.subnet.prefix),
        ) + "::eth0:off"@,
        None => i.boot_args@,
    }
}

/// The netmask of a prefix.
pub open spec fn netmask_of(prefix: u8) -> crate::net::cidr::Ipv4Addr {
    crate::net::cidr::Ipv4Addr {
        bits: (0x1_0000_0000 - crate::net::cidr::net_size(prefix)) as u32,
    }
}

/// The kernel arguments of a VM.
pub fn boot_args(instance: &VmInstance) -> (args: String)
    requires
        instance.net is Some ==> instance.net->0.subnet.wf(),
    ensures
        args@ == boot_args_of(*instance),
{
    match &instance.net {
        Some(net) => text::cat8(
            &instance.boot_args,
            " ip=",
            &net.guest_ip.to_text(),
            "::",
            &net.gateway_ip.to_text(),
            ":",
            &net.netmask().to_text(),
            "::eth0:off",
        ),
        None => instance.boot_args.clone(),
    }
}

/// The boot source: kernel and initramfs.
pub fn boot_source(instance: &VmInstance) -> (fields: Vec<JsonField>)
    requires
        instance.net is Some ==> instance.net->0.subnet.wf(),
    ensures
        json::fields_view(fields@) == boot_source_of(*instance),
{
    let fields = vec![
        text_field("kernel_image_path", &instance.kernel_path),
        text_field("boot_args", &boot_args(instance)),
        text_field("initrd_path", &instance.initramfs_path),
    ];
    proof {
        assert(json::fields_view(fields@) =~= boot_source_of(*instance));
    }
    fields
}

/// The boot source: kernel and initramfs.
pub open spec fn boot_source_of(i: VmInstance) -> Seq<(Seq<char>, ValueView)> {
    seq![
        ("kernel_image_path"@, ValueView::Text(i.kernel_path@)),
        ("boot_args"@, ValueView::Text(boot_args_of(i))),
        ("initrd_path"@, ValueView::Text(i.initramfs_path@)),
    ]
}

/// Processors and memory.
pub open spec fn machine_config_of(c: VmConfig) -> Seq<(Seq<char>, ValueView)> {
    seq![
        ("vcpu_count"@, ValueView::Number(c.cpus as nat)),
        ("mem_size_mib"@, ValueView::Number(c.memory_mb as nat)),
        ("smt"@, ValueView::Flag(false)),
        ("track_dirty_pages"@, ValueView::Flag(false)),
        ("huge_pages"@, ValueView::Text("None"@)),
    ]
}

/// Processors and memory.
pub fn machine_config(config: &VmConfig) -> (fields: Vec<JsonField>)
    ensures
        json::fields_view(fields@) == machine_config_of(*config),
{
    let fields = vec![
        number_field("vcpu_count", config.cpus as u64),
        number_field("mem_size_mib", config.memory_mb as u64),
        flag_field("smt", false),
        flag_field("track_dirty_pages", false),
        text_field("huge_pages", "None"),
    ];
    proof {
        assert(json::fields_view(fields@) =~= machine_config_of(*config));
    }
    fields
}

/// A drive. The root drive, and no other, is read-only.
pub open spec fn drive_of(drive_id: Seq<char>, path: Seq<char>, is_root: bool) -> Seq<
    (Seq<char>, ValueView),
> {
    seq![
        ("drive_id"@, ValueView::Text(drive_id)),
        ("path_on_host"@, ValueView::Text(path)),
        ("is_root_device"@, ValueView::Flag(is_root)),
        ("is_read_only"@, ValueView::Flag(is_root)),
        ("cache_type"@, ValueView::Text("Unsafe"@)),
        ("io_engine"@, ValueView::Text("Async"@)),
    ]
}

/// A drive. The root drive, and no other, is read-only.
pub fn drive(drive_id: &str, path: &str, is_root: bool) -> (fields: Vec<JsonField>)
    ensures
        json::fields_view(fields@) == drive_of(drive_id@, path@, is_root),
{
    let fields = vec![
        text_field("drive_id", drive_id),
        text_field("path_on_host", path),
        flag_field("is_root_device", is_root),
        flag_field("is_read_only", is_root),
        text_field("cache_type", "Unsafe"),
        text_field("io_engine", "Async"),
    ];
    proof {
        assert(json::fields_view(fields@) =~= drive_of(drive_id@, path@, is_root));
    }
    fields
}

// ---------------------------------------------------------------------------
// Unit names
// ---------------------------------------------------------------------------

/// The components of a path: what stands between slashes.
pub open spec fn components(path: Seq<char>) -> Seq<Seq<char>>
    decreases path.len(),
{
    let k = text::char_index(path, '/') as int;
    if k >= path.len() {
        if path.len() == 0 {
            seq![]
        } else {
            seq![path]
        }
    } else {
        let rest = components(path.skip(k + 1));
        if k == 0 {
            rest
        } else {
            seq![path.take(k)] + rest
        }
    }
}

/// A component with its dashes escaped.
pub open spec fn dashes_escaped(s: Seq<char>) -> Seq<char>
    decreases s.len(),
{
    if s.len() == 0 {
        seq![]
    } else {
        dashes_escaped(s.drop_last()) + if s.last() == '-' {
            "\\x2d"@
        } else {
            seq![s.last()]
        }
    }
}

/// The components with their dashes escaped.
pub open spec fn all_escaped(parts: Seq<Seq<char>>) -> Seq<Seq<char>> {
    parts.map_values(|p: Seq<char>| dashes_escaped(p))
}

/// The name systemd gives to a path: components joined by dashes, dashes
/// within them escaped, a leading dot escaped, and a dash for the root.
pub open spec fn escaped_path(path: Seq<char>) -> Seq<char> {
    let joined = text::joined(all_escaped(components(path)), "-"@);
    if components(path).len() == 0 {
        "-"@
    } else {
        match text::after_prefix(joined, "."@) {
            Some(rest) => "\\x2e"@ + rest,
            None => joined,
        }
    }
}

/// A component with its dashes escaped.
fn escape_dashes(s: &str) -> (r: String)
    ensures
        r@ == dashes_escaped(s@),
{
    let chars = text::chars_of(s);
    let mut out = String::new();
    let mut i: usize = 0;
    proof {
        assert(s@.take(0) =~= seq![]);
    }
    while i < chars.len()
        invariant
            chars@ == s@,
            i <= chars@.len(),
            out@ == dashes_escaped(s@.take(i as int)),
        decreases chars@.len() - i,
    {
        proof {
            assert(s@.take(i as int + 1).drop_last() =~= s@.take(i as int));
        }
        if chars[i] == '-' {
            out.append("\\x2d");
        } else {
            out.push(chars[i]);
            proof {
                assert(out@ =~= dashes_escaped(s@.take(i as int)) + seq![chars@[i as int]]);
            }
        }
        i += 1;
    }
    proof {
        assert(s@.take(s@.len() as int) =~= s@);
    }
    out
}

/// The name systemd gives to a path, as `systemd-escape --path` prints it for
/// the characters that a mount path may have. A mount unit whose name differs
/// from this is refused.
pub fn systemd_escape_path(path: &str) -> (name: String)
    ensures
        name@ == escaped_path(path@),
{
    let mut parts: Vec<String> = Vec::new();
    let mut rest = path.to_owned();
    let mut more = true;
    let ghost want = all_escaped(components(path@));
    proof {
        assert(text::views(parts@) + want =~= want);
    }
    while more
        invariant
            want == all_escaped(components(path@)),
            more ==> text::views(parts@) + all_escaped(components(rest@)) == want,
            !more ==> text::views(parts@) == want,
        decreases rest@.len() + (if more { 1int } else { 0int }),
    {
        let ghost before = text::views(parts@);
        match text::split_once(&rest, '/') {
            Some((head, tail)) => {
                let ghost k = text::char_index(rest@, '/') as int;
                if head.unicode_len() > 0 {
                    parts.push(escape_dashes(&head));
                    proof {
                        assert(text::views(parts@) =~= before + seq![dashes_escaped(head@)]);
                        assert(all_escaped(seq![head@] + components(tail@)) =~= seq![
                            dashes_escaped(head@),
                        ] + all_escaped(components(tail@)));
                        assert(text::views(parts@) + all_escaped(components(tail@)) =~= before
                            + all_escaped(components(rest@)));
                    }
                }
                rest = tail;
            },
            None => {
                if rest.as_str().unicode_len() > 0 {
                    parts.push(escape_dashes(&rest));
                    proof {
                        assert(text::views(parts@) =~= before + seq![dashes_escaped(rest@)]);
                        assert(all_escaped(seq![rest@]) =~= seq![dashes_escaped(rest@)]);
                    }
                } else {
                    proof {
                        assert(all_escaped(components(rest@)) =~= seq![]);
                        assert(before + all_escaped(components(rest@)) =~= before);
                    }
                }
                more = false;
            },
        }
    }
    if parts.len() == 0 {
        return "-".to_owned();
    }
    let joined = text::join(&parts, "-");
    match text::strip_prefix(&joined, ".") {
        Some(tail) => text::cat2("\\x2e", &tail),
        None => joined,
    }
}

// ---------------------------------------------------------------------------
// Seeding the overlay disk
// ---------------------------------------------------------------------------

/// One step of seeding a mounted overlay disk.
#[derive(Debug)]
pub enum SeedStep {
    /// Create a directory and what leads to it.
    MakeDir { path: String },
    Write { path: String, contents: String },
    Symlink { target: String, path: String },
    /// Stop with this error.
    Fail(Error),
}

/// A step of seeding, by its texts.
pub enum SeedView {
    MakeDir { path: Seq<char> },
    Write { path: Seq<char>, contents: Seq<char> },
    Symlink { target: Seq<char>, path: Seq<char> },
    FailNet { message: Seq<char> },
    FailOther { error: Error },
}

impl View for SeedStep {
    type V = SeedView;

    open spec fn view(&self) -> SeedView {
        match *self {
            SeedStep::MakeDir { path } => SeedView::MakeDir { path: path@ },
            SeedStep::Write { path, contents } => SeedView::Write {
                path: path@,
                contents: contents@,
            },
            SeedStep::Symlink { target, path } => SeedView::Symlink {
                target: target@,
                path: path@,
            },
            SeedStep::Fail(Error::Net(message)) => SeedView::FailNet { message: message@ },
            SeedStep::Fail(error) => SeedView::FailOther { error },
        }
    }
}

/// Steps of seeding, by their texts.
pub open spec fn seed_views(steps: Seq<SeedStep>) -> Seq<SeedView> {
    steps.map_values(|s: SeedStep| s@)
}

/// How to put a VM's own files on its overlay disk: mount it, take the steps,
/// unmount it again however they went.
#[derive(Debug)]
pub struct SeedPlan {
    pub mount_point: String,
    pub mount: Vec<String>,
    pub steps: Vec<SeedStep>,
    pub umount: Vec<String>,
}

/// A seeding plan, by its texts.
pub struct SeedPlanView {
    pub mount_point: Seq<char>,
    pub mount: Seq<Seq<char>>,
    pub steps: Seq<SeedView>,
    pub umount: Seq<Seq<char>>,
}

impl View for SeedPlan {
    type V = SeedPlanView;

    open spec fn view(&self) -> SeedPlanView {
        SeedPlanView {
            mount_point: self.mount_point@,
            mount: text::views(self.mount@),
            steps: seed_views(self.steps@),
            umount: text::views(self.umount@),
        }
    }
}

/// The PostgreSQL rule of a VM: passwords are accepted from its project's
/// subnet and from nowhere else.
pub open spec fn pg_hba_text(subnet: crate::net::cidr::Ipv4Net) -> Seq<char> {
    "# Seeded by hostd at VM creation: password auth only from the\n# VM's project subnet (the host's bridge IP + sibling VMs).\nhost all all "@
        + crate::net::cidr::net_text(subnet) + " scram-sha-256\n"@
}

/// What is seeded for a PostgreSQL image.
pub open spec fn pg_seed(i: VmInstance, mount_point: Seq<char>) -> Seq<SeedView> {
    match i.net {
        Some(net) => {
            let dir = text::path_joined(
                mount_point,
                "upper/etc/postgresql/16/main/pg_hba.d"@,
            );
            seq![
                SeedView::MakeDir { path: dir },
                SeedView::Write {
                    path: text::path_joined(dir, "00-tikovm.conf"@),
                    contents: pg_hba_text(net.subnet),
                },
            ]
        },
        None => seq![SeedView::FailNet { message: no_network_text(i.vm_id.0@) }],
    }
}

/// The complaint that a VM has no network.
pub open spec fn no_network_text(vm_id: Seq<char>) -> Seq<char> {
    "vm "@ + vm_id + " has no network allocation"@
}

/// The unit that mounts a VM's block volume.
pub open spec fn mount_unit_text(mount_path: Seq<char>) -> Seq<char> {
    "# Seeded by hostd at VM creation: mounts the VM's dedicated\n# block volume (the /dev/vdc drive, ext4-formatted by hostd).\n[Unit]\nDescription=tikovm block storage volume\nBefore=local-fs.target\n\n[Mount]\nWhat=/dev/disk/by-label/tikovm-data\nWhere="@
        + mount_path + "\nType=ext4\n\n[Install]\nWantedBy=multi-user.target\n"@
}

/// What is seeded for a block volume that is to be mounted.
pub open spec fn mount_seed(mount_path: Seq<char>, mount_point: Seq<char>) -> Seq<SeedView> {
    let unit = escaped_path(mount_path) + ".mount"@;
    let dir = text::path_joined(mount_point, "upper/etc/systemd/system"@);
    let wants = text::path_joined(dir, "multi-user.target.wants"@);
    seq![
        SeedView::MakeDir { path: wants },
        SeedView::Write {
            path: text::path_joined(dir, unit),
            contents: mount_unit_text(mount_path),
        },
        SeedView::Symlink { target: "../"@ + unit, path: text::path_joined(wants, unit) },
    ]
}

/// Where a VM's block volume is to be mounted, if it is.
pub open spec fn mount_path_of(c: VmConfig) -> Option<Seq<char>> {
    match c.block_storage {
        Some(bs) => if bs.mount_path@.len() > 0 {
            Some(bs.mount_path@)
        } else {
            None
        },
        None => None,
    }
}

/// What is seeded, in order; nothing follows a failure.
pub open spec fn seed_steps_of(i: VmInstance, mount_point: Seq<char>) -> Seq<SeedView> {
    let pg = if i.vm_config.image@ == "postgres-16"@ {
        pg_seed(i, mount_point)
    } else {
        seq![]
    };
    if i.vm_config.image@ == "postgres-16"@ && i.net is None {
        pg
    } else {
        match mount_path_of(i.vm_config) {
            Some(path) => pg + mount_seed(path, mount_point),
            None => pg,
        }
    }
}

/// What is to be put on a VM's overlay disk, if anything.
pub open spec fn seed_of(i: VmInstance) -> Option<SeedPlanView> {
    if i.vm_config.image@ != "postgres-16"@ && mount_path_of(i.vm_config) is None {
        None
    } else {
        let mount_point = text::path_joined(i.work_dir@, "seed.mnt"@);
        Some(
            SeedPlanView {
                mount_point,
                mount: seq!["mount"@, "-o"@, "loop"@, i.overlay_disk@, mount_point],
                steps: seed_steps_of(i, mount_point),
                umount: seq!["umount"@, mount_point],
            },
        )
    }
}

/// What is seeded for a PostgreSQL image.
fn pg_steps(instance: &VmInstance, mount_point: &str) -> (steps: Vec<SeedStep>)
    ensures
        seed_views(steps@) == pg_seed(*instance, mount_point@),
{
    match &instance.net {
        Some(net) => {
            let dir = text::path_join(mount_point, "upper/etc/postgresql/16/main/pg_hba.d");
            let path = text::path_join(&dir, "00-tikovm.conf");
            let contents = text::cat3(
                "# Seeded by hostd at VM creation: password auth only from the\n# VM's project subnet (the host's bridge IP + sibling VMs).\nhost all all ",
                &net.subnet.to_text(),
                " scram-sha-256\n",
            );
            let steps = vec![SeedStep::MakeDir { path: dir }, SeedStep::Write { path, contents }];
            proof {
                assert(seed_views(steps@) =~= pg_seed(*instance, mount_point@));
            }
            steps
        },
        None => {
            let steps = vec![SeedStep::Fail(no_network(instance))];
            proof {
                assert(seed_views(steps@) =~= pg_seed(*instance, mount_point@));
            }
            steps
        },
    }
}

/// The complaint that a VM has no network.
fn no_network(instance: &VmInstance) -> (e: Error)
    ensures
        e matches Error::Net(m) && m@ == no_network_text(instance.vm_id.0@),
{
    Error::Net(text::cat3("vm ", &instance.vm_id.0, " has no network allocation"))
}

/// What is seeded for a block volume that is to be mounted.
fn mount_steps(mount_path: &str, mount_point: &str) -> (steps: Vec<SeedStep>)
    ensures
        seed_views(steps@) == mount_seed(mount_path@, mount_point@),
{
    let unit = text::cat2(&systemd_escape_path(mount_path), ".mount");
    let dir = text::path_join(mount_point, "upper/etc/systemd/system");
    let wants = text::path_join(&dir, "multi-user.target.wants");
    let link = text::path_join(&wants, &unit);
    let contents = text::cat3(
        "# Seeded by hostd at VM creation: mounts the VM's dedicated\n# block volume (the /dev/vdc drive, ext4-formatted by hostd).\n[Unit]\nDescription=tikovm block storage volume\nBefore=local-fs.target\n\n[Mount]\nWhat=/dev/disk/by-label/tikovm-data\nWhere=",
        mount_path,
        "\nType=ext4\n\n[Install]\nWantedBy=multi-user.target\n",
    );
    let steps = vec![
        SeedStep::MakeDir { path: wants },
        SeedStep::Write { path: text::path_join(&dir, &unit), contents },
        SeedStep::Symlink { target: text::cat2("../", &unit), path: link },
    ];
    proof {
        assert(seed_views(steps@) =~= mount_seed(mount_path@, mount_point@));
    }
    steps
}

/// What is to be put on a VM's overlay disk, if anything. The disk shadows the
/// shared image, so files written to it before the first boot are how a VM
/// gets configuration of its own: for PostgreSQL the rule that lets its project
/// in, for a block volume the unit that mounts it.
pub fn seed_overlay_disk(instance: &VmInstance) -> (plan: Option<SeedPlan>)
    ensures
        match (plan, seed_of(*instance)) {
            (Some(p), Some(want)) => p@ == want,
            (None, None) => true,
            _ => false,
        },
{
    let needs_pg_hba = text::str_eq(&instance.vm_config.image, "postgres-16");
    let mut mount_path: Option<&str> = None;
    if let Some(bs) = &instance.vm_config.block_storage {
        if bs.mount_path.as_str().unicode_len() > 0 {
            mount_path = Some(bs.mount_path.as_str());
        }
    }
    if !needs_pg_hba && mount_path.is_none() {
        return None;
    }
    let mount_point = text::path_join(&instance.work_dir, "seed.mnt");
    let mut steps: Vec<SeedStep> = Vec::new();
    proof {
        assert(seed_views(steps@) =~= seq![]);
    }
    if needs_pg_hba {
        steps = pg_steps(instance, &mount_point);
    }
    if !(needs_pg_hba && instance.net.is_none()) {
        if let Some(path) = mount_path {
            let ghost before = steps@;
            let mut more = mount_steps(path, &mount_point);
            let ghost added = more@;
            steps.append(&mut more);
            proof {
                assert(seed_views(steps@) =~= seed_views(before) + seed_views(added));
            }
        }
    }
    let mount = text::owned(
        &["mount", "-o", "loop", instance.overlay_disk.as_str(), mount_point.as_str()],
    );
    let umount = text::owned(&["umount", mount_point.as_str()]);
    proof {
        assert(text::views(mount@) =~= seq![
            "mount"@,
            "-o"@,
            "loop"@,
            instance.overlay_disk@,
            mount_point@,
        ]);
        assert(text::views(umount@) =~= seq!["umount"@, mount_point@]);
        assert(seed_views(steps@) =~= seed_steps_of(*instance, mount_point@));
    }
    Some(SeedPlan { mount_point, mount, steps, umount })
}

/// What seeding comes to: its own failure wins over that of unmounting.
pub fn seed_outcome(seeded: Result<(), Error>, unmounted: Result<(), Error>) -> (r: Result<
    (),
    Error,
>)
    ensures
        r == if seeded is Err {
            seeded
        } else {
            unmounted
        },
{
    match seeded {
        Err(e) => Err(e),
        Ok(()) => unmounted,
    }
}

/// A list of texts as debug formatting shows it.
pub open spec fn debug_list(args: Seq<Seq<char>>) -> Seq<char> {
    "["@ + text::joined(args.map_values(|a: Seq<char>| text::debug_quoted(a)), ", "@) + "]"@
}

/// The error for a tool that failed.
pub fn tool_failed(tool: &str, args: &[String], status: &str) -> (e: Error)
    ensures
        e matches Error::Vmm(m) && m@ == tool@ + " "@ + debug_list(text::views(args@)) + " failed: "@
            + status@,
{
    let mut quoted: Vec<String> = Vec::new();
    let mut i: usize = 0;
    let ghost want = text::views(args@).map_values(|a: Seq<char>| text::debug_quoted(a));
    while i < args.len()
        invariant
            i <= args@.len(),
            want == text::views(args@).map_values(|a: Seq<char>| text::debug_quoted(a)),
            text::views(quoted@) == want.take(i as int),
        decreases args@.len() - i,
    {
        let ghost before = text::views(quoted@);
        quoted.push(text::quote(&args[i]));
        proof {
            assert(text::views(quoted@) =~= before.push(want[i as int]));
            assert(want.take(i as int + 1) =~= want.take(i as int).push(want[i as int]));
        }
        i += 1;
    }
    proof {
        assert(want.take(want.len() as int) =~= want);
    }
    let list = text::cat3("[", &text::join(&quoted, ", "), "]");
    Error::Vmm(text::cat5(tool, " ", &list, " failed: ", status))
}

/// The error for a program that could not be started.
pub fn spawn_failed(program: &str, why: &str) -> (e: Error)
    ensures
        e matches Error::Vmm(m) && m@ == "spawn "@ + program@ + ": "@ + why@,
{
    Error::Vmm(text::cat4("spawn ", program, ": ", why))
}

/// The error for an overlay disk that could not be formatted.
pub fn mkfs_failed(path: &str, status: &str) -> (e: Error)
    ensures
        e matches Error::Vmm(m) && m@ == "mkfs.ext4 "@ + path@ + " failed: "@ + status@,
{
    Error::Vmm(text::cat4("mkfs.ext4 ", path, " failed: ", status))
}

// ---------------------------------------------------------------------------
// The whole setup
// ---------------------------------------------------------------------------

/// One step of setting a VM up.
#[derive(Debug)]
pub enum SetupStep {
    /// Put an object to the API.
    Put { path: String, fields: Vec<JsonField> },
    /// Create a sparse disk image and format it with the command.
    CreateDisk { path: String, size_bytes: u64, mkfs: Vec<String> },
    /// Put a VM's own files on its disk.
    Seed(SeedPlan),
    /// Stop with this error.
    Fail(Error),
}

/// A step of setting a VM up, by its texts.
pub enum SetupView {
    Put { path: Seq<char>, fields: Seq<(Seq<char>, ValueView)> },
    CreateDisk { path: Seq<char>, size_bytes: nat, mkfs: Seq<Seq<char>> },
    Seed(SeedPlanView),
    FailVmm { message: Seq<char> },
    FailNet { message: Seq<char> },
    FailOther { error: Error },
}

impl View for SetupStep {
    type V = SetupView;

    open spec fn view(&self) -> SetupView {
        match *self {
            SetupStep::Put { path, fields } => SetupView::Put {
                path: path@,
                fields: json::fields_view(fields@),
            },
            SetupStep::CreateDisk { path, size_bytes, mkfs } => SetupView::CreateDisk {
                path: path@,
                size_bytes: size_bytes as nat,
                mkfs: text::views(mkfs@),
            },
            SetupStep::Seed(plan) => SetupView::Seed(plan@),
            SetupStep::Fail(Error::Vmm(message)) => SetupView::FailVmm { message: message@ },
            SetupStep::Fail(Error::Net(message)) => SetupView::FailNet { message: message@ },
            SetupStep::Fail(error) => SetupView::FailOther { error },
        }
    }
}

/// Steps of setting a VM up, by their texts.
pub open spec fn setup_views(steps: Seq<SetupStep>) -> Seq<SetupView> {
    steps.map_values(|s: SetupStep| s@)
}

/// Putting a drive.
pub open spec fn put_drive_of(drive_id: Seq<char>, path: Seq<char>, is_root: bool) -> SetupView {
    SetupView::Put { path: "/drives/"@ + drive_id, fields: drive_of(drive_id, path, is_root) }
}

/// Booting and disks: the drives come in the order of the guest's device names.
pub open spec fn disk_steps_of(i: VmInstance) -> Seq<SetupView> {
    seq![
        SetupView::Put { path: "/boot-source"@, fields: boot_source_of(i) },
        SetupView::Put { path: "/machine-config"@, fields: machine_config_of(i.vm_config) },
        put_drive_of("rootfs"@, i.rootfs_path@, true),
        SetupView::CreateDisk {
            path: i.overlay_disk@,
            size_bytes: i.vm_config.disk_size_mb as nat * 1024 * 1024,
            mkfs: seq!["mkfs.ext4"@, "-F"@, "-q"@, "-m"@, "0"@, i.overlay_disk@],
        },
    ] + match seed_of(i) {
        Some(plan) => seq![SetupView::Seed(plan)],
        None => seq![],
    } + seq![put_drive_of("overlay"@, i.overlay_disk@, false)] + match i.block_device {
        Some(dev) => seq![put_drive_of("data"@, dev@, false)],
        None => seq![],
    }
}

/// Console, control channel and network; nothing follows a failure.
pub open spec fn device_steps_of(i: VmInstance) -> Seq<SetupView> {
    seq![
        SetupView::Put {
            path: "/serial"@,
            fields: seq![("serial_out_path"@, ValueView::Text(i.serial_log@))],
        },
    ] + match i.guest_cid {
        None => seq![
            SetupView::FailVmm { message: "vm "@ + i.vm_id.0@ + " has no vsock guest CID"@ },
        ],
        Some(cid) => seq![
            SetupView::Put {
                path: "/vsock"@,
                fields: seq![
                    ("vsock_id"@, ValueView::Text("vsock0"@)),
                    ("guest_cid"@, ValueView::Number(cid as nat)),
                    ("uds_path"@, ValueView::Text(i.vsock_uds_path@)),
                ],
            },
            match i.net {
                None => SetupView::FailNet { message: no_network_text(i.vm_id.0@) },
                Some(net) => SetupView::Put {
                    path: "/network-interfaces/eth0"@,
                    fields: seq![
                        ("iface_id"@, ValueView::Text("eth0"@)),
                        ("guest_mac"@, ValueView::Text(net.guest_mac@)),
                        ("host_dev_name"@, ValueView::Text(net.tap_name.0@)),
                    ],
                },
            },
        ],
    }
}

/// Putting a drive.
fn put_drive(drive_id: &str, path: &str, is_root: bool) -> (step: SetupStep)
    ensures
        step@ == put_drive_of(drive_id@, path@, is_root),
{
    SetupStep::Put {
        path: text::cat2("/drives/", drive_id),
        fields: drive(drive_id, path, is_root),
    }
}

/// Creating a fresh disk for the guest's writes, of the configured size.
fn create_overlay_disk(path: &str, size_mb: u32) -> (step: SetupStep)
    ensures
        step@ == (SetupView::CreateDisk {
            path: path@,
            size_bytes: size_mb as nat * 1024 * 1024,
            mkfs: seq!["mkfs.ext4"@, "-F"@, "-q"@, "-m"@, "0"@, path@],
        }),
{
    let mkfs = text::owned(&["mkfs.ext4", "-F", "-q", "-m", "0", path]);
    proof {
        assert(text::views(mkfs@) =~= seq!["mkfs.ext4"@, "-F"@, "-q"@, "-m"@, "0"@, path@]);
    }
    SetupStep::CreateDisk {
        path: path.to_owned(),
        size_bytes: (size_mb as u64) * 1024 * 1024,
        mkfs,
    }
}

/// Appends a step.
fn push_step(steps: &mut Vec<SetupStep>, step: SetupStep)
    ensures
        setup_views(final(steps)@) == setup_views(old(steps)@).push(step@),
{
    steps.push(step);
    proof {
        assert(setup_views(steps@) =~= setup_views(old(steps)@).push(step@));
    }
}

/// Booting and disks.
fn disk_steps(instance: &VmInstance) -> (steps: Vec<SetupStep>)
    requires
        instance.net is Some ==> instance.net->0.subnet.wf(),
    ensures
        setup_views(steps@) == disk_steps_of(*instance),
{
    let mut steps: Vec<SetupStep> = Vec::new();
    proof {
        assert(setup_views(steps@) =~= seq![]);
    }
    push_step(
        &mut steps,
        SetupStep::Put { path: "/boot-source".to_owned(), fields: boot_source(instance) },
    );
    push_step(
        &mut steps,
        SetupStep::Put {
            path: "/machine-config".to_owned(),
            fields: machine_config(&instance.vm_config),
        },
    );
    push_step(&mut steps, put_drive("rootfs", &instance.rootfs_path, true));
    push_step(
        &mut steps,
        create_overlay_disk(&instance.overlay_disk, instance.vm_config.disk_size_mb),
    );
    if let Some(plan) = seed_overlay_disk(instance) {
        push_step(&mut steps, SetupStep::Seed(plan));
    }
    push_step(&mut steps, put_drive("overlay", &instance.overlay_disk, false));
    if let Some(dev) = &instance.block_device {
        push_step(&mut steps, put_drive("data", dev, false));
    }
    proof {
        assert(setup_views(steps@) =~= disk_steps_of(*instance));
    }
    steps
}

/// Adds console, control channel and network.
fn add_device_steps(steps: &mut Vec<SetupStep>, instance: &VmInstance)
    ensures
        setup_views(final(steps)@) == setup_views(old(steps)@) + device_steps_of(*instance),
{
    let serial = vec![text_field("serial_out_path", &instance.serial_log)];
    proof {
        assert(json::fields_view(serial@) =~= seq![
            ("serial_out_path"@, ValueView::Text(instance.serial_log@)),
        ]);
    }
    push_step(steps, SetupStep::Put { path: "/serial".to_owned(), fields: serial });
    match instance.guest_cid {
        None => {
            push_step(
                steps,
                SetupStep::Fail(
                    Error::Vmm(text::cat3("vm ", &instance.vm_id.0, " has no vsock guest CID")),
                ),
            );
        },
        Some(cid) => {
            let vsock = vec![
                text_field("vsock_id", "vsock0"),
                number_field("guest_cid", cid as u64),
                text_field("uds_path", &instance.vsock_uds_path),
            ];
            proof {
                assert(json::fields_view(vsock@) =~= seq![
                    ("vsock_id"@, ValueView::Text("vsock0"@)),
                    ("guest_cid"@, ValueView::Number(cid as nat)),
                    ("uds_path"@, ValueView::Text(instance.vsock_uds_path@)),
                ]);
            }
            push_step(steps, SetupStep::Put { path: "/vsock".to_owned(), fields: vsock });
            match &instance.net {
                None => {
                    push_step(steps, SetupStep::Fail(no_network(instance)));
                },
                Some(net) => {
                    let iface = vec![
                        text_field("iface_id", "eth0"),
                        text_field("guest_mac", &net.guest_mac),
                        text_field("host_dev_name", &net.tap_name.0),
                    ];
                    proof {
                        assert(json::fields_view(iface@) =~= seq![
                            ("iface_id"@, ValueView::Text("eth0"@)),
                            ("guest_mac"@, ValueView::Text(net.guest_mac@)),
                            ("host_dev_name"@, ValueView::Text(net.tap_name.0@)),
                        ]);
                    }
                    push_step(
                        steps,
                        SetupStep::Put {
                            path: "/network-interfaces/eth0".to_owned(),
                            fields: iface,
                        },
                    );
                },
            }
        },
    }
    proof {
        assert(setup_views(steps@) =~= setup_views(old(steps)@) + device_steps_of(*instance));
    }
}

/// How to set up a freshly started Firecracker process: boot source, machine,
/// drives, console, control channel, network. The first step that fails ends
/// the setup.
pub fn configure_vm(instance: &VmInstance) -> (steps: Vec<SetupStep>)
    requires
        instance.net is Some ==> instance.net->0.subnet.wf(),
    ensures
        setup_views(steps@) == disk_steps_of(*instance) + device_steps_of(*instance),
{
    let mut steps = disk_steps(instance);
    add_device_steps(&mut steps, instance);
    steps
}

/// Setting up a VM that has its network and its control channel fails nowhere
/// by itself; the root drive comes first and is the only read-only one.
pub proof fn law_complete_vm_needs_no_failure(i: VmInstance, k: int)
    requires
        i.net is Some,
        i.guest_cid is Some,
        0 <= k < (disk_steps_of(i) + device_steps_of(i)).len(),
    ensures
        !((disk_steps_of(i) + device_steps_of(i))[k] is FailVmm),
        !((disk_steps_of(i) + device_steps_of(i))[k] is FailNet),
        !((disk_steps_of(i) + device_steps_of(i))[k] is FailOther),
        (disk_steps_of(i) + device_steps_of(i))[2] == put_drive_of("rootfs"@, i.rootfs_path@, true),
{
}

} // verus!
