//! Data shared across the network code and its users: the per-VM network
//! configuration, TAP device names, and a VM's network identity.

use vstd::prelude::*;

use crate::error::Error;
use crate::net::cidr::{Ipv4Addr, Ipv4Net};
use crate::text;
use crate::vmm::vm::VmId;

verus! {

/// The name of a host TAP device.
#[derive(Debug)]
pub struct TapName(pub String);

/// The TAP name for a VM id: `vm-1-aaaaaa` becomes `tap-1-aaaaaa`, and an id
/// without the `vm-` prefix is kept whole.
pub open spec fn tap_for(vm_id: Seq<char>) -> Seq<char> {
    if text::has_prefix(vm_id, "vm-"@) {
        "tap-"@ + vm_id.skip("vm-"@.len() as int)
    } else {
        "tap-"@ + vm_id
    }
}

impl TapName {
    /// The TAP name for a VM id.
    pub fn for_vm(vm_id: &str) -> (tap: TapName)
        ensures
            tap.0@ == tap_for(vm_id@),
    {
        match text::strip_prefix(vm_id, "vm-") {
            Some(suffix) => TapName(text::cat2("tap-", &suffix)),
            None => TapName(text::cat2("tap-", vm_id)),
        }
    }
}

impl Clone for TapName {
    fn clone(&self) -> (t: Self)
        ensures
            t == *self,
    {
        TapName(self.0.clone())
    }
}

/// A guest TCP port that the VM exposes, with a label describing its purpose.
/// The proxy reads this registry on every connection, so removing a port
/// revokes access immediately.
#[derive(Debug, PartialEq, Eq)]
pub struct ExposedPort {
    pub port: u16,
    pub label: String,
}

/// What a VM may reach and what may reach it.
#[derive(Debug)]
pub struct NetworkConfig {
    pub allow_internet: bool,
    pub exposed_ports: Vec<ExposedPort>,
    pub egress: Vec<String>,
    pub public_access: bool,
}

impl Default for NetworkConfig {
    fn default() -> (c: Self)
        ensures
            !c.allow_internet,
            c.exposed_ports@.len() == 0,
            c.egress@.len() == 0,
            !c.public_access,
    {
        NetworkConfig {
            allow_internet: false,
            exposed_ports: Vec::new(),
            egress: Vec::new(),
            public_access: false,
        }
    }
}

/// Where `port` stands first among the exposed ports; their number if nowhere.
pub open spec fn port_index(ports: Seq<ExposedPort>, port: u16) -> nat
    decreases ports.len(),
{
    if ports.len() == 0 || ports[0].port == port {
        0
    } else {
        1 + port_index(ports.drop_first(), port)
    }
}

/// Whether `port` is exposed.
pub open spec fn exposes(ports: Seq<ExposedPort>, port: u16) -> bool {
    exists|i: int| 0 <= i < ports.len() && (#[trigger] ports[i]).port == port
}

/// Whether the registry is sound: port numbers are valid and none repeats.
pub open spec fn ports_sound(ports: Seq<ExposedPort>) -> bool {
    &&& forall|i: int| 0 <= i < ports.len() ==> (#[trigger] ports[i]).port != 0
    &&& forall|i: int, j: int|
        0 <= i < j < ports.len() ==> (#[trigger] ports[i]).port != (#[trigger] ports[j]).port
}

/// `port_index` is where the port stands first.
pub proof fn lemma_port_index(ports: Seq<ExposedPort>, port: u16)
    ensures
        port_index(ports, port) <= ports.len(),
        port_index(ports, port) < ports.len() ==> ports[port_index(ports, port) as int].port
            == port,
        forall|j: int| 0 <= j < port_index(ports, port) ==> (#[trigger] ports[j]).port != port,
        exposes(ports, port) <==> port_index(ports, port) < ports.len(),
    decreases ports.len(),
{
    if ports.len() > 0 && ports[0].port != port {
        lemma_port_index(ports.drop_first(), port);
        assert forall|j: int| 0 <= j < port_index(ports, port) implies (#[trigger] ports[j]).port
            != port by {
            if j > 0 {
                assert(ports.drop_first()[j - 1].port != port);
            }
        }
    }
}

/// Finds an exposed port.
pub fn find_port(ports: &[ExposedPort], port: u16) -> (at: Option<usize>)
    ensures
        match at {
            Some(i) => i < ports@.len() && i == port_index(ports@, port),
            None => port_index(ports@, port) == ports@.len(),
        },
        at is Some <==> exposes(ports@, port),
{
    let mut i: usize = 0;
    proof {
        lemma_port_index(ports@, port);
    }
    while i < ports.len()
        invariant
            i <= ports@.len(),
            forall|j: int| 0 <= j < i ==> (#[trigger] ports@[j]).port != port,
            port_index(ports@, port) <= ports@.len(),
            port_index(ports@, port) < ports@.len() ==> ports@[port_index(
                ports@,
                port,
            ) as int].port == port,
            forall|j: int|
                0 <= j < port_index(ports@, port) ==> (#[trigger] ports@[j]).port != port,
            exposes(ports@, port) <==> port_index(ports@, port) < ports@.len(),
        decreases ports@.len() - i,
    {
        if ports[i].port == port {
            return Some(i);
        }
        i += 1;
    }
    None
}

impl NetworkConfig {
    /// Registers an exposed port. The port number is the identity: adding the
    /// same port twice is a conflict, and port 0 is invalid.
    pub fn add_exposed_port(&mut self, vm_id: &VmId, port: ExposedPort) -> (r: Result<(), Error>)
        ensures
            final(self).allow_internet == old(self).allow_internet,
            final(self).egress == old(self).egress,
            final(self).public_access == old(self).public_access,
            ports_sound(old(self).exposed_ports@) ==> ports_sound(final(self).exposed_ports@),
            match r {
                Ok(()) => port.port != 0 && !exposes(old(self).exposed_ports@, port.port)
                    && final(self).exposed_ports@ == old(self).exposed_ports@.push(port),
                Err(Error::InvalidPort(p)) => port.port == 0 && p == 0
                    && final(self).exposed_ports@ == old(self).exposed_ports@,
                Err(Error::PortAlreadyExposed { vm_id: id, port: p }) => port.port != 0 && exposes(
                    old(self).exposed_ports@,
                    port.port,
                ) && id@ == vm_id.0@ && p == port.port && final(self).exposed_ports@ == old(
                    self,
                ).exposed_ports@,
                Err(_) => false,
            },
    {
        if port.port == 0 {
            return Err(Error::InvalidPort(port.port));
        }
        if find_port(&self.exposed_ports, port.port).is_some() {
            return Err(Error::PortAlreadyExposed { vm_id: vm_id.0.clone(), port: port.port });
        }
        self.exposed_ports.push(port);
        Ok(())
    }

    /// Removes an exposed port by port number.
    pub fn remove_exposed_port(&mut self, vm_id: &VmId, port: u16) -> (r: Result<(), Error>)
        ensures
            final(self).allow_internet == old(self).allow_internet,
            final(self).egress == old(self).egress,
            final(self).public_access == old(self).public_access,
            ports_sound(old(self).exposed_ports@) ==> ports_sound(final(self).exposed_ports@)
                && !exposes(final(self).exposed_ports@, port),
            match r {
                Ok(()) => exposes(old(self).exposed_ports@, port) && final(self).exposed_ports@
                    == old(self).exposed_ports@.remove(
                    port_index(old(self).exposed_ports@, port) as int,
                ),
                Err(Error::PortNotExposed { vm_id: id, port: p }) => !exposes(
                    old(self).exposed_ports@,
                    port,
                ) && id@ == vm_id.0@ && p == port && final(self).exposed_ports@ == old(
                    self,
                ).exposed_ports@,
                Err(_) => false,
            },
    {
        match find_port(&self.exposed_ports, port) {
            None => Err(Error::PortNotExposed { vm_id: vm_id.0.clone(), port }),
            Some(at) => {
                let ghost before = self.exposed_ports@;
                let _removed = self.exposed_ports.remove(at);
                proof {
                    let after = self.exposed_ports@;
                    lemma_port_index(before, port);
                    if ports_sound(before) {
                        assert forall|i: int| 0 <= i < after.len() implies (
                        #[trigger] after[i]).port != port && after[i].port != 0 by {
                            assert(after[i] == before[if i < at { i } else { i + 1 }]);
                        }
                        assert forall|i: int, j: int| 0 <= i < j < after.len() implies (
                        #[trigger] after[i]).port != (#[trigger] after[j]).port by {
                            assert(after[i] == before[if i < at { i } else { i + 1 }]);
                            assert(after[j] == before[if j < at { j } else { j + 1 }]);
                        }
                    }
                }
                Ok(())
            },
        }
    }
}

/// Removing a port that was just added leaves the registry as it was.
pub proof fn law_remove_undoes_add(ports: Seq<ExposedPort>, port: ExposedPort)
    requires
        !exposes(ports, port.port),
    ensures
        exposes(ports.push(port), port.port),
        ports.push(port).remove(port_index(ports.push(port), port.port) as int) == ports,
{
    let more = ports.push(port);
    assert(more[ports.len() as int].port == port.port);
    lemma_port_index(more, port.port);
    let at = port_index(more, port.port) as int;
    if at < ports.len() {
        assert(ports[at].port == port.port);
    }
    assert(more.remove(ports.len() as int) =~= ports);
}

// ---------------------------------------------------------------------------
// Network identity
// ---------------------------------------------------------------------------

/// The upper-case hexadecimal digit for `d < 16`.
pub open spec fn hex_digit(d: nat) -> char {
    if d < 10 {
        (48 + d) as char
    } else {
        (55 + d) as char
    }
}

/// Two upper-case hexadecimal digits.
pub open spec fn hex2(n: nat) -> Seq<char> {
    seq![hex_digit(n / 16), hex_digit(n % 16)]
}

/// The locally administered MAC for an address: `AA:FC` and its octets.
pub open spec fn mac_for(ip: Ipv4Addr) -> Seq<char> {
    "AA:FC:"@ + hex2(crate::net::cidr::octet(ip, 0)) + ":"@ + hex2(crate::net::cidr::octet(ip, 1))
        + ":"@ + hex2(crate::net::cidr::octet(ip, 2)) + ":"@ + hex2(
        crate::net::cidr::octet(ip, 3),
    )
}

fn hex_char(d: u8) -> (c: char)
    requires
        d < 16,
    ensures
        c == hex_digit(d as nat),
{
    if d < 10 {
        (48 + d) as char
    } else {
        (55 + d) as char
    }
}

/// Two upper-case hexadecimal digits.
fn hex_pair(n: u8) -> (s: String)
    ensures
        s@ == hex2(n as nat),
{
    let mut s = String::new();
    s.push(hex_char(n / 16));
    s.push(hex_char(n % 16));
    proof {
        assert(s@ =~= hex2(n as nat));
    }
    s
}

/// Derives a locally administered guest MAC from the IPv4 address, such as
/// `AA:FC:AC:10:00:02` for `172.16.0.2`.
pub fn guest_mac_from_ip(ip: Ipv4Addr) -> (mac: String)
    ensures
        mac@ == mac_for(ip),
{
    let (a, b, c, d) = ip.octets();
    text::cat8(
        "AA:FC:",
        &hex_pair(a),
        ":",
        &hex_pair(b),
        ":",
        &hex_pair(c),
        ":",
        &hex_pair(d),
    )
}

/// Different addresses get different MACs, so a MAC is unique per VM.
pub proof fn law_mac_unique_per_ip(x: Ipv4Addr, y: Ipv4Addr)
    requires
        mac_for(x) == mac_for(y),
    ensures
        x == y,
{
    reveal_strlit("AA:FC:");
    reveal_strlit(":");
    assert("AA:FC:"@.len() == 6);
    assert(":"@.len() == 1);
    let mx = mac_for(x);
    let my = mac_for(y);
    assert forall|i: int| 0 <= i < 4 implies #[trigger] crate::net::cidr::octet(x, i)
        == crate::net::cidr::octet(y, i) by {
        let a = crate::net::cidr::octet(x, i);
        let b = crate::net::cidr::octet(y, i);
        let at = 6 + 3 * i;
        assert(mx[at] == hex_digit(a / 16) && mx[at + 1] == hex_digit(a % 16));
        assert(my[at] == hex_digit(b / 16) && my[at + 1] == hex_digit(b % 16));
        assert(a <= 255 && b <= 255);
        assert(a / 16 == b / 16);
        assert(a % 16 == b % 16);
    }
    crate::net::cidr::lemma_octets_determine(x, y);
}

/// A VM's network identity.
#[derive(Debug)]
pub struct VmNet {
    pub tap_name: TapName,
    pub guest_ip: Ipv4Addr,
    pub gateway_ip: Ipv4Addr,
    /// Subnet of the VM's project, such as `172.16.5.0/24`.
    pub subnet: Ipv4Net,
    /// Guest MAC, such as `AA:FC:00:00:00:07`.
    pub guest_mac: String,
}

impl VmNet {
    /// The identity with the given addresses; the MAC follows from the guest's.
    pub fn new(
        tap_name: TapName,
        guest_ip: Ipv4Addr,
        gateway_ip: Ipv4Addr,
        subnet: Ipv4Net,
    ) -> (net: VmNet)
        ensures
            net.tap_name == tap_name,
            net.guest_ip == guest_ip,
            net.gateway_ip == gateway_ip,
            net.subnet == subnet,
            net.guest_mac@ == mac_for(guest_ip),
    {
        VmNet { tap_name, guest_ip, gateway_ip, subnet, guest_mac: guest_mac_from_ip(guest_ip) }
    }

    /// Dotted netmask of the subnet, such as `255.255.255.0` for a /24.
    pub fn netmask(&self) -> (ip: Ipv4Addr)
        requires
            self.subnet.wf(),
        ensures
            ip.bits == 0x1_0000_0000 - crate::net::cidr::net_size(self.subnet.prefix),
    {
        self.subnet.netmask()
    }
}

} // verus!
