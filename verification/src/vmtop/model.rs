//! The VMs of a host as the dashboard sees them.

use vstd::prelude::*;

use crate::text;
use crate::vmm::state::VmState;
use crate::vmm::vm::VmMode;

verus! {

/// A VM.
#[derive(Debug)]
pub struct Vm {
    pub vm_id: String,
    pub state: VmState,
    /// Its network identity, once it has one.
    pub net: Option<VmNet>,
    /// Its snapshot, while it is suspended.
    pub snapshot: Option<VmSnapshot>,
    /// When it was created, in nanoseconds since the Unix epoch.
    pub created_at: i64,
    pub vm_config: VmConfig,
}

/// What a VM was asked to be.
#[derive(Debug)]
pub struct VmConfig {
    pub name: String,
    pub project_id: u64,
    pub mode: VmMode,
    pub image: String,
    /// Configured processors; how busy they are is not known.
    pub cpus: u32,
    /// Configured memory in MiB; how much of it is used is not known.
    pub memory_mb: u32,
    /// Size of the VM's own disk in MiB.
    pub disk_size_mb: u32,
    pub tags: Vec<String>,
    pub network_config: NetworkConfig,
    pub auto_suspend: Option<AutoSuspendConfig>,
    pub block_storage: Option<BlockStorageConfig>,
}

/// A VM's network identity.
#[derive(Debug)]
pub struct VmNet {
    pub tap_name: String,
    pub guest_ip: String,
    pub gateway_ip: String,
    /// Subnet of the VM's project, such as `172.16.115.0/24`.
    pub subnet: String,
}

/// A VM's snapshot.
#[derive(Debug)]
pub struct VmSnapshot {
    /// When it was taken, in nanoseconds since the Unix epoch.
    pub created_at: i64,
}

/// What a VM shows of itself on the network.
#[derive(Debug)]
pub struct NetworkConfig {
    pub exposed_ports: Vec<ExposedPort>,
}

impl Default for NetworkConfig {
    fn default() -> (c: Self)
        ensures
            c.exposed_ports@.len() == 0,
    {
        NetworkConfig { exposed_ports: Vec::new() }
    }
}

/// An exposed port.
#[derive(Debug)]
pub struct ExposedPort {
    pub port: u16,
}

/// When a VM is suspended.
#[derive(Debug)]
pub struct AutoSuspendConfig {
    pub idle_timeout_secs: u64,
}

/// A dedicated block volume.
#[derive(Debug)]
pub struct BlockStorageConfig {
    pub size_mb: u32,
}

/// The name of a state, as the host reports it and as the dashboard shows it.
pub open spec fn state_label(s: VmState) -> Seq<char> {
    match s {
        VmState::Creating => "creating"@,
        VmState::Starting => "starting"@,
        VmState::Pausing => "pausing"@,
        VmState::Resuming => "resuming"@,
        VmState::Suspending => "suspending"@,
        VmState::Restoring => "restoring"@,
        VmState::Destroying => "destroying"@,
        VmState::Created => "created"@,
        VmState::Started => "started"@,
        VmState::Paused => "paused"@,
        VmState::Suspended => "suspended"@,
        VmState::Destroyed => "destroyed"@,
    }
}

/// The name of a state.
pub fn state_text(s: VmState) -> (name: &'static str)
    ensures
        name@ == state_label(s),
{
    match s {
        VmState::Creating => "creating",
        VmState::Starting => "starting",
        VmState::Pausing => "pausing",
        VmState::Resuming => "resuming",
        VmState::Suspending => "suspending",
        VmState::Restoring => "restoring",
        VmState::Destroying => "destroying",
        VmState::Created => "created",
        VmState::Started => "started",
        VmState::Paused => "paused",
        VmState::Suspended => "suspended",
        VmState::Destroyed => "destroyed",
    }
}

/// Whether some text contains another.
pub open spec fn any_holds(texts: Seq<Seq<char>>, needle: Seq<char>) -> bool {
    exists|i: int| 0 <= i < texts.len() && text::find_text(#[trigger] texts[i], needle) is Some
}

/// Whether some text contains another.
pub fn any_contains(texts: &[String], needle: &str) -> (b: bool)
    ensures
        b == any_holds(text::views(texts@), needle@),
{
    let mut i: usize = 0;
    while i < texts.len()
        invariant
            i <= texts@.len(),
            forall|j: int|
                0 <= j < i ==> text::find_text(#[trigger] text::views(texts@)[j], needle@) is None,
        decreases texts@.len() - i,
    {
        proof {
            assert(text::views(texts@)[i as int] == texts@[i as int]@);
        }
        if text::contains(&texts[i], needle) {
            return true;
        }
        i += 1;
    }
    false
}

/// The texts that a filter looks at: everything people see of a VM, in lower
/// case where it may have another.
pub open spec fn searched(vm: Vm) -> Seq<Seq<char>> {
    seq![
        text::lowered(vm.vm_id@),
        text::lowered(vm.vm_config.name@),
        text::lowered(vm.vm_config.image@),
        state_label(vm.state),
    ] + text::views(vm.vm_config.tags@).map_values(|t: Seq<char>| text::lowered(t)) + match vm.net {
        Some(net) => seq![net.guest_ip@, net.subnet@],
        None => seq![],
    }
}

impl Vm {
    /// The VM's address, once it has one.
    pub fn guest_ip(&self) -> (ip: Option<&String>)
        ensures
            match self.net {
                Some(net) => ip == Some(&net.guest_ip),
                None => ip is None,
            },
    {
        match &self.net {
            Some(net) => Some(&net.guest_ip),
            None => None,
        }
    }

    /// How many ports the VM exposes.
    pub fn exposed_port_count(&self) -> (n: usize)
        ensures
            n == self.vm_config.network_config.exposed_ports@.len(),
    {
        self.vm_config.network_config.exposed_ports.len()
    }

    /// The texts that a filter looks at.
    fn searched_texts(&self) -> (texts: Vec<String>)
        ensures
            text::views(texts@) == searched(*self),
    {
        let mut texts: Vec<String> = Vec::new();
        texts.push(text::to_lowercase(&self.vm_id));
        texts.push(text::to_lowercase(&self.vm_config.name));
        texts.push(text::to_lowercase(&self.vm_config.image));
        texts.push(state_text(self.state).to_owned());
        let ghost head = text::views(texts@);
        let ghost tags = text::views(self.vm_config.tags@).map_values(
            |t: Seq<char>| text::lowered(t),
        );
        let mut i: usize = 0;
        proof {
            assert(head =~= seq![
                text::lowered(self.vm_id@),
                text::lowered(self.vm_config.name@),
                text::lowered(self.vm_config.image@),
                state_label(self.state),
            ]);
            assert(head + tags.take(0) =~= head);
        }
        while i < self.vm_config.tags.len()
            invariant
                i <= self.vm_config.tags@.len(),
                tags == text::views(self.vm_config.tags@).map_values(
                    |t: Seq<char>| text::lowered(t),
                ),
                text::views(texts@) == head + tags.take(i as int),
            decreases self.vm_config.tags@.len() - i,
        {
            let ghost before = text::views(texts@);
            texts.push(text::to_lowercase(&self.vm_config.tags[i]));
            proof {
                assert(text::views(texts@) =~= before.push(tags[i as int]));
                assert(head + tags.take(i as int + 1) =~= (head + tags.take(i as int)).push(
                    tags[i as int],
                ));
            }
            i += 1;
        }
        proof {
            assert(tags.take(tags.len() as int) =~= tags);
        }
        if let Some(net) = &self.net {
            let ghost before = text::views(texts@);
            texts.push(net.guest_ip.clone());
            texts.push(net.subnet.clone());
            proof {
                assert(text::views(texts@) =~= before + seq![net.guest_ip@, net.subnet@]);
            }
        }
        proof {
            assert(text::views(texts@) =~= searched(*self));
        }
        texts
    }

    /// Whether some text that people see of the VM contains the filter, in
    /// whatever case.
    pub fn matches(&self, needle: &str) -> (b: bool)
        ensures
            b == any_holds(searched(*self), text::lowered(needle@)),
    {
        any_contains(&self.searched_texts(), &text::to_lowercase(needle))
    }
}

} // verus!
