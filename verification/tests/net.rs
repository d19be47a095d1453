use tikovm::error::Error;
use tikovm::net::cidr::{Ipv4Addr, Ipv4Net};
use tikovm::net::host::{self, HostStep};
use tikovm::net::manager::{self, NetworkManager};
use tikovm::net::state::{AllocPlan, NetState};
use tikovm::net::types::{ExposedPort, NetworkConfig, TapName};
use tikovm::vmm::vm::VmId;

fn supernet() -> Ipv4Net {
    Ipv4Net::parse("172.16.0.0/12").unwrap()
}

fn ip(s: &str) -> Ipv4Addr {
    Ipv4Addr::parse(s).unwrap()
}

fn alloc_for(state: &mut NetState, project_id: u64, vm_id: &str) -> AllocPlan {
    state
        .allocate(project_id, &VmId::from(vm_id), &TapName::for_vm(vm_id), supernet(), 24)
        .unwrap()
}

#[test]
fn cidr_parse_masks_host_bits() {
    let net = Ipv4Net::parse("172.16.3.77/12").unwrap();
    assert_eq!(net.to_text(), "172.16.0.0/12");
}

#[test]
fn cidr_rejects_malformed() {
    for bad in ["172.16.0.0", "172.16.0/12", "172.16.0.0/33", "172.16.0.256/12", "a/b", ""] {
        assert!(matches!(Ipv4Net::parse(bad), Err(Error::Net(_))), "{bad}");
    }
}

#[test]
fn cidr_text_round_trips() {
    let net = Ipv4Net::parse("10.1.2.0/23").unwrap();
    assert_eq!(Ipv4Net::parse(&net.to_text()).unwrap(), net);
    assert_eq!(net.netmask().to_text(), "255.255.254.0");
    assert_eq!(Ipv4Net::parse("0.0.0.0/1").unwrap().netmask().to_text(), "128.0.0.0");
}

#[test]
fn subnets_partition_the_supernet() {
    let net = supernet();
    assert_eq!(net.subnet_count(24), 4096);
    assert_eq!(net.subnet(0, 24).to_text(), "172.16.0.0/24");
    assert_eq!(net.subnet(4095, 24).to_text(), "172.31.255.0/24");
    assert_eq!(net.subnet(4096, 24).to_text(), "172.32.0.0/24");
    assert_eq!(net.subnet(1, 24).host(2).to_text(), "172.16.1.2");
}

#[test]
fn first_vm_creates_project() {
    let mut state = NetState::new();
    let plan = alloc_for(&mut state, 7, "vm-7-aaaaaa");
    assert!(plan.setup.is_some());
    let setup = plan.setup.unwrap();
    assert_eq!(setup.bridge, "tbr-7");
    assert_eq!(setup.gateway, Ipv4Addr::new(172, 16, 0, 1));
    assert_eq!(setup.subnet.to_text(), "172.16.0.0/24");
    assert_eq!(plan.vm_net.guest_ip, ip("172.16.0.2"));
    assert_eq!(plan.vm_net.gateway_ip, ip("172.16.0.1"));
    assert_eq!(plan.vm_net.subnet.to_text(), "172.16.0.0/24");
    assert_eq!(plan.vm_net.guest_mac, "AA:FC:AC:10:00:02");
}

#[test]
fn second_vm_shares_project_subnet() {
    let mut state = NetState::new();
    alloc_for(&mut state, 7, "vm-7-aaaaaa");
    let plan = alloc_for(&mut state, 7, "vm-7-bbbbbb");
    assert!(plan.setup.is_none());
    assert_eq!(plan.bridge, "tbr-7");
    assert_eq!(plan.vm_net.guest_ip, ip("172.16.0.3"));
    assert_eq!(plan.vm_net.subnet.to_text(), "172.16.0.0/24");
}

#[test]
fn other_project_gets_next_subnet() {
    let mut state = NetState::new();
    alloc_for(&mut state, 7, "vm-7-aaaaaa");
    let plan = alloc_for(&mut state, 8, "vm-8-cccccc");
    assert!(plan.setup.is_some());
    assert_eq!(plan.vm_net.subnet.to_text(), "172.16.1.0/24");
    assert_eq!(plan.vm_net.guest_ip, ip("172.16.1.2"));
}

#[test]
fn duplicate_vm_rejected() {
    let mut state = NetState::new();
    alloc_for(&mut state, 7, "vm-7-aaaaaa");
    let dup = state.allocate(
        7,
        &VmId::from("vm-7-aaaaaa"),
        &TapName::for_vm("vm-7-aaaaaa"),
        supernet(),
        24,
    );
    assert!(dup.is_err());
}

#[test]
fn last_release_tears_down_and_subnet_is_reused() {
    let mut state = NetState::new();
    alloc_for(&mut state, 7, "vm-7-aaaaaa");
    alloc_for(&mut state, 7, "vm-7-bbbbbb");

    // Non-last release keeps the project.
    let plan = state.release(&VmId::from("vm-7-aaaaaa"), supernet(), 24).unwrap();
    assert!(plan.teardown.is_none());
    assert!(state.project(7).is_some());

    // Last release tears the project down...
    let plan = state.release(&VmId::from("vm-7-bbbbbb"), supernet(), 24).unwrap();
    let teardown = plan.teardown.unwrap();
    assert_eq!(teardown.bridge, "tbr-7");
    assert_eq!(teardown.subnet.to_text(), "172.16.0.0/24");
    assert!(state.projects.is_empty());

    // ...and the freed subnet is handed out again.
    let plan = alloc_for(&mut state, 9, "vm-9-dddddd");
    assert_eq!(plan.vm_net.subnet.to_text(), "172.16.0.0/24");
}

#[test]
fn freed_ip_is_reused_within_project() {
    let mut state = NetState::new();
    alloc_for(&mut state, 7, "vm-7-aaaaaa");
    alloc_for(&mut state, 7, "vm-7-bbbbbb");
    state.release(&VmId::from("vm-7-aaaaaa"), supernet(), 24);
    let plan = alloc_for(&mut state, 7, "vm-7-cccccc");
    assert_eq!(plan.vm_net.guest_ip, ip("172.16.0.2"));
}

#[test]
fn release_unknown_vm_is_none() {
    let mut state = NetState::new();
    assert!(state.release(&VmId::from("vm-1-zzzzzz"), supernet(), 24).is_none());
}

#[test]
fn subnet_exhaustion_errors() {
    let mut state = NetState::new();
    let supernet = Ipv4Net::parse("172.16.0.0/28").unwrap();
    // /30 subnet: 4 addresses, only host index 2 usable (.0 net, .1 gw, .3 bcast).
    let first = state
        .allocate(
            1,
            &VmId::from("vm-1-aaaaaa"),
            &TapName::for_vm("vm-1-aaaaaa"),
            supernet,
            30,
        )
        .unwrap();
    assert_eq!(first.vm_net.subnet.to_text(), "172.16.0.0/30");
    let second = state.allocate(
        1,
        &VmId::from("vm-1-bbbbbb"),
        &TapName::for_vm("vm-1-bbbbbb"),
        supernet,
        30,
    );
    assert!(second.is_err());
}

#[test]
fn supernet_exhaustion_errors() {
    let mut state = NetState::new();
    let supernet = Ipv4Net::parse("172.16.0.0/29").unwrap();
    // A /29 holds exactly two /30 subnets (one usable VM IP each).
    for project in 1..=2u64 {
        let id = format!("vm-{project}-aaaaaa");
        state
            .allocate(project, &VmId::from(&id), &TapName::for_vm(&id), supernet, 30)
            .unwrap();
    }
    let third = state.allocate(
        3,
        &VmId::from("vm-3-cccccc"),
        &TapName::for_vm("vm-3-cccccc"),
        supernet,
        30,
    );
    assert!(third.is_err());
}

#[test]
fn rollback_alloc_undoes_new_project() {
    let mut state = NetState::new();
    alloc_for(&mut state, 7, "vm-7-aaaaaa");
    state.rollback_alloc(7, &VmId::from("vm-7-aaaaaa"));
    assert!(state.projects.is_empty());
}

#[test]
fn rollback_alloc_keeps_existing_project() {
    let mut state = NetState::new();
    alloc_for(&mut state, 7, "vm-7-aaaaaa");
    alloc_for(&mut state, 7, "vm-7-bbbbbb");
    state.rollback_alloc(7, &VmId::from("vm-7-bbbbbb"));
    let project = state.project(7).unwrap();
    assert_eq!(project.vms.len(), 1);
}

// --- exposed ports ----------------------------------------------------------

fn vm_id() -> VmId {
    VmId::from("vm-1-test")
}

fn exposed(port: u16) -> ExposedPort {
    ExposedPort { port, label: format!("svc-{port}") }
}

#[test]
fn add_exposed_port_appends() {
    let mut cfg = NetworkConfig::default();
    cfg.add_exposed_port(&vm_id(), exposed(8080)).unwrap();
    cfg.add_exposed_port(&vm_id(), exposed(3000)).unwrap();
    assert_eq!(cfg.exposed_ports, vec![exposed(8080), exposed(3000)]);
}

#[test]
fn add_exposed_port_rejects_zero() {
    let mut cfg = NetworkConfig::default();
    assert!(matches!(cfg.add_exposed_port(&vm_id(), exposed(0)), Err(Error::InvalidPort(0))));
    assert!(cfg.exposed_ports.is_empty());
}

#[test]
fn add_exposed_port_rejects_duplicate() {
    let mut cfg = NetworkConfig::default();
    cfg.add_exposed_port(&vm_id(), exposed(8080)).unwrap();
    assert!(matches!(
        cfg.add_exposed_port(&vm_id(), exposed(8080)),
        Err(Error::PortAlreadyExposed { port: 8080, .. })
    ));
    assert_eq!(cfg.exposed_ports.len(), 1);
}

#[test]
fn remove_exposed_port_removes() {
    let mut cfg = NetworkConfig::default();
    cfg.add_exposed_port(&vm_id(), exposed(8080)).unwrap();
    cfg.add_exposed_port(&vm_id(), exposed(3000)).unwrap();
    cfg.remove_exposed_port(&vm_id(), 8080).unwrap();
    assert_eq!(cfg.exposed_ports, vec![exposed(3000)]);
}

#[test]
fn remove_exposed_port_rejects_missing() {
    let mut cfg = NetworkConfig::default();
    assert!(matches!(
        cfg.remove_exposed_port(&vm_id(), 8080),
        Err(Error::PortNotExposed { port: 8080, .. })
    ));
}

// --- the host ---------------------------------------------------------------

#[test]
fn tap_names_follow_the_vm() {
    assert_eq!(TapName::for_vm("vm-7-x7k2pq").0, "tap-7-x7k2pq");
    assert_eq!(TapName::for_vm("x").0, "tap-x");
}

#[test]
fn manager_rejects_unusable_prefixes() {
    assert!(matches!(NetworkManager::new("172.16.0.0/12", 12), Err(Error::Net(_))));
    let e = NetworkManager::new("172.16.0.0/12", 31).unwrap_err();
    assert_eq!(
        e.message(),
        "net error: subnet prefix /31 must be between /13 and /30 for supernet 172.16.0.0/12"
    );
    assert!(NetworkManager::new("172.16.0.0/12", 24).is_ok());
}

#[test]
fn manager_takes_over_any_persisted_state() {
    let mut state = NetState::new();
    for project in 1..=3u64 {
        alloc_for(&mut state, project, &format!("vm-{project}-aaaaaa"));
    }
    // Room for two subnets only; all three projects are cleaned up.
    let mut narrow = NetworkManager::new("10.0.0.0/23", 24).unwrap();
    narrow.restore(state);
    assert_eq!(narrow.state.projects.len(), 3);
    let steps = narrow.reconcile_on_startup();
    for name in ["tap-1-aaaaaa", "tap-2-aaaaaa", "tap-3-aaaaaa", "tbr-1", "tbr-2", "tbr-3"] {
        assert!(
            steps.iter().any(|s| matches!(s, HostStep::RunIfLink { link, .. } if link == name)),
            "{name}"
        );
    }
    assert!(narrow.state.projects.is_empty());
    let plan =
        narrow.allocate(9, &VmId::from("vm-9-aaaaaa"), &TapName::for_vm("vm-9-aaaaaa")).unwrap();
    assert_eq!(plan.vm_net.subnet.to_text(), "10.0.0.0/24");
}

#[test]
fn allocation_is_set_up_and_torn_down() {
    let mut mgr = NetworkManager::new("172.16.0.0/12", 24).unwrap();
    let id = VmId::from("vm-7-aaaaaa");
    let plan = mgr.allocate(7, &id, &TapName::for_vm("vm-7-aaaaaa")).unwrap();
    let up = manager::apply_allocation(&plan);
    assert!(up.iter().any(|s| matches!(s, HostStep::EnableForwarding)));
    assert!(up.iter().any(|s| matches!(
        s,
        HostStep::RunUnlessLink { link, .. } if link == "tap-7-aaaaaa"
    )));
    let released = mgr.release(&id).unwrap();
    let down = manager::apply_release(&released);
    assert!(down.iter().any(|s| matches!(
        s,
        HostStep::RunIfLink { link, .. } if link == "tbr-7"
    )));
    assert!(mgr.state.projects.is_empty());
    assert!(mgr.release(&id).is_none());
}

#[test]
fn failed_setup_rolls_back_without_the_bridge_of_others() {
    let mut mgr = NetworkManager::new("172.16.0.0/12", 24).unwrap();
    mgr.allocate(7, &VmId::from("vm-7-aaaaaa"), &TapName::for_vm("vm-7-aaaaaa")).unwrap();
    let second = VmId::from("vm-7-bbbbbb");
    let plan = mgr.allocate(7, &second, &TapName::for_vm("vm-7-bbbbbb")).unwrap();
    let undo = manager::undo_allocation(&plan);
    assert!(!undo.iter().any(|s| matches!(
        s,
        HostStep::RunIfLink { link, .. } if link == "tbr-7"
    )));
    mgr.rollback(7, &second);
    assert_eq!(mgr.state.project(7).unwrap().vms.len(), 1);
}

#[test]
fn startup_forgets_all_allocations() {
    let mut mgr = NetworkManager::new("172.16.0.0/12", 24).unwrap();
    mgr.allocate(7, &VmId::from("vm-7-aaaaaa"), &TapName::for_vm("vm-7-aaaaaa")).unwrap();
    let steps = mgr.reconcile_on_startup();
    assert!(!steps.is_empty());
    assert!(mgr.state.projects.is_empty());
    assert!(mgr.reconcile_on_startup().is_empty());
}

#[test]
fn nat_rules_spare_project_traffic() {
    let mut state = NetState::new();
    let setup = alloc_for(&mut state, 7, "vm-7-aaaaaa").setup.unwrap();
    let rules = host::nat_rules(&setup, "-A");
    assert_eq!(rules.len(), 3);
    assert_eq!(
        rules[0].join(" "),
        "-t nat -A POSTROUTING -s 172.16.0.0/24 ! -o tbr-+ -j MASQUERADE"
    );
    assert_eq!(host::str_refs(&rules[1]).join(" "), "-A FORWARD -s 172.16.0.0/24 -j ACCEPT");
    assert_eq!(host::legacy_masq_rules(&setup).len(), 2);
}

#[test]
fn stray_bridges_are_told_by_their_name() {
    let out = b"3: tbr-7: <BROADCAST> mtu 1500\n4: docker0: <UP> mtu 1500\n5: tbr-12: <UP>\n";
    let names = host::stray_bridges(out);
    assert_eq!(names, vec!["tbr-7".to_string(), "tbr-12".to_string()]);
    assert_eq!(manager::delete_stray_bridge("tbr-7").join(" "), "ip link del tbr-7");
}

#[test]
fn command_failure_quotes_the_reason() {
    let e = host::command_failed("ip", &["link".to_string(), "up".to_string()], b"no \xff\n");
    assert!(e.message().contains("ip"));
    assert!(e.message().contains('\u{fffd}'));
}
