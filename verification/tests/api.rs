use tikovm::api::auth::{api_token, constant_time_eq, require_bearer_token, API_TOKEN_ENV_VAR};
use tikovm::api::error::ApiError;
use tikovm::api::routes::{self, ExecStep};
use tikovm::error::Error;
use tikovm::net::types::{ExposedPort, NetworkConfig};
use tikovm::proxy::target::{resolve_target, TargetStep};
use tikovm::proxy::token::{Proto, ProxyTokens};
use tikovm::text;
use tikovm::vmm::create::{CreateEvent, Creation};
use tikovm::vmm::firecracker::FirecrackerVmm;
use tikovm::vmm::state::VmState;
use tikovm::net::cidr::{Ipv4Addr, Ipv4Net};
use tikovm::net::types::{TapName, VmNet};
use tikovm::vmm::vm::{VmConfig, VmId, VmMode};
use tikovm::vmm::workload::WorkloadId;

fn config(mode: VmMode) -> VmConfig {
    VmConfig {
        name: "web".to_string(),
        project_id: 7,
        mode,
        image: "ubuntu-24".to_string(),
        cpus: 2,
        memory_mb: 512,
        disk_size_mb: 1024,
        network_config: NetworkConfig::default(),
        ssh_access: false,
        env: vec![],
        cmd: vec![],
        services: vec![],
        cron_schedule: None,
        timeout_secs: None,
        tags: vec![],
        auto_suspend: None,
        block_storage: None,
    }
}

fn with_vm() -> (FirecrackerVmm, VmId) {
    let mut vmm = FirecrackerVmm::new("/assets", "/work");
    let mut c = Creation::new(config(VmMode::Permanent), "/assets", "/work").unwrap();
    c.advance(CreateEvent::Done);
    let net = VmNet::new(
        TapName::for_vm("vm-7-aaaaaa"),
        Ipv4Addr::new(172, 16, 0, 2),
        Ipv4Addr::new(172, 16, 0, 1),
        Ipv4Net::parse("172.16.0.0/24").unwrap(),
    );
    c.advance(CreateEvent::Network { net, guest_cid: 3 });
    c.advance(CreateEvent::Done);
    c.advance(CreateEvent::Done);
    let id = vmm.register(c);
    (vmm, id)
}

#[test]
fn the_api_token_must_be_set() {
    assert_eq!(API_TOKEN_ENV_VAR, "TIKOVM_HOSTD_API_TOKEN");
    assert_eq!(api_token(Some("secret")).unwrap(), "secret");
    assert!(matches!(api_token(Some("")), Err(Error::MissingApiToken)));
    assert!(matches!(api_token(None), Err(Error::MissingApiToken)));
}

#[test]
fn tokens_compare_byte_by_byte() {
    assert!(constant_time_eq(b"abc", b"abc"));
    assert!(!constant_time_eq(b"abc", b"abd"));
    assert!(!constant_time_eq(b"abc", b"ab"));
    assert!(!constant_time_eq(b"ab", b"abc"));
    assert!(!constant_time_eq(b"ab\0", b"ab"));
    assert!(!constant_time_eq(b"", b"a"));
    assert!(constant_time_eq(b"", b""));
}

#[test]
fn requests_need_the_api_token() {
    assert!(require_bearer_token(Some("Bearer secret"), "secret").is_ok());
    for header in [None, Some("secret"), Some("Bearer other"), Some("bearer secret")] {
        let e = require_bearer_token(header, "secret").unwrap_err();
        assert_eq!((e.status, e.message.as_str()), (401, "missing or invalid bearer token"));
    }
}

#[test]
fn errors_have_a_status() {
    let status = |e| ApiError::of(e).status;
    let text = || "x".to_string();
    assert_eq!(status(Error::VmNotFound(text())), 404);
    assert_eq!(status(Error::WorkloadNotFound(text())), 404);
    assert_eq!(status(Error::PortNotExposed { vm_id: text(), port: 1 }), 404);
    assert_eq!(
        status(Error::InvalidStateTransition { from: VmState::Created, to: VmState::Paused }),
        409
    );
    assert_eq!(status(Error::PortAlreadyExposed { vm_id: text(), port: 1 }), 409);
    assert_eq!(status(Error::InvalidPort(0)), 400);
    assert_eq!(status(Error::InvalidImage(text())), 400);
    assert_eq!(status(Error::Io(text())), 500);
    assert_eq!(ApiError::internal("x").status, 500);
    assert_eq!(
        ApiError::new(400, "a \"b\"").body(),
        r#"{"error":{"code":400,"message":"a \"b\""}}"#
    );
}

#[test]
fn schedule_vms_wait_for_their_time() {
    assert!(routes::starts_on_create(&config(VmMode::Permanent)));
    assert!(routes::starts_on_create(&config(VmMode::Ephemeral)));
    assert!(!routes::starts_on_create(&config(VmMode::Schedule)));
}

#[test]
fn tokens_are_minted_for_exposed_ports() {
    let (mut vmm, id) = with_vm();
    let tokens = ProxyTokens::new();
    assert_eq!(routes::get_vm(&vmm, &id).unwrap().vm_id.0, id.0);
    let none = VmId::from("vm-1-none");
    assert!(matches!(routes::get_vm(&vmm, &none), Err(Error::VmNotFound(_))));
    assert!(matches!(
        routes::mint_port_token(&vmm, &tokens, &none, 80, None, None),
        Err(Error::VmNotFound(_))
    ));
    assert!(matches!(
        routes::mint_port_token(&vmm, &tokens, &id, 80, None, None),
        Err(Error::PortNotExposed { port: 80, .. })
    ));
    vmm.add_exposed_port(&id, ExposedPort { port: 80, label: String::new() }).unwrap();
    assert!(routes::check_mint(&vmm, &id, 80).is_ok());
    assert_eq!(routes::get_network(&vmm, &id).unwrap().exposed_ports.len(), 1);
    let (token, _) = routes::mint_port_token(&vmm, &tokens, &id, 80, None, None).unwrap();
    let claims = tokens.verify(&token).unwrap();
    assert_eq!((claims.port, claims.proto), (80, Proto::Http));
    assert_eq!(claims.exp - claims.iat, 900);
    let (token, _) =
        routes::mint_port_token(&vmm, &tokens, &id, 80, Some(Proto::Tcp), Some(5)).unwrap();
    let claims = tokens.verify(&token).unwrap();
    assert_eq!((claims.proto, claims.exp - claims.iat), (Proto::Tcp, 5));

    // A VM that is not up cannot be forwarded to.
    assert!(matches!(resolve_target(&vmm, &claims, false), TargetStep::Refuse(e)
        if e.status == 409));
    let plan = vmm.start_vm(&id).unwrap();
    vmm.finish(plan, Ok(()), 0).unwrap();
    assert!(matches!(
        resolve_target(&vmm, &claims, false),
        TargetStep::Forward { guest_ip, probe: false } if guest_ip.to_text() == "172.16.0.2"
    ));
    // A port that was taken back is refused, whatever the token says.
    vmm.remove_exposed_port(&id, 80).unwrap();
    assert!(matches!(resolve_target(&vmm, &claims, false), TargetStep::Refuse(e)
        if e.status == 403));
}

#[test]
fn suspended_vms_are_woken_for_a_request() {
    let (mut vmm, id) = with_vm();
    let tokens = ProxyTokens::new();
    vmm.add_exposed_port(&id, ExposedPort { port: 80, label: String::new() }).unwrap();
    let (token, _) = routes::mint_port_token(&vmm, &tokens, &id, 80, None, None).unwrap();
    let claims = tokens.verify(&token).unwrap();
    let plan = vmm.start_vm(&id).unwrap();
    vmm.finish(plan, Ok(()), 0).unwrap();
    let plan = vmm.snapshot_vm(&id, 0).unwrap();
    vmm.finish(plan, Ok(()), 0).unwrap();
    assert!(matches!(resolve_target(&vmm, &claims, false), TargetStep::Wake));
    let plan = vmm.restore_vm(&id).unwrap();
    vmm.finish(plan, Ok(()), 0).unwrap();
    assert!(matches!(
        resolve_target(&vmm, &claims, true),
        TargetStep::Forward { probe: true, .. }
    ));
}

#[test]
fn execs_end_with_their_workload() {
    let id = WorkloadId("wl-1".to_string());
    assert!(matches!(routes::exec_step(&id, false, true), ExecStep::Done));
    assert!(matches!(routes::exec_step(&id, true, false), ExecStep::Poll));
    match routes::exec_step(&id, true, true) {
        ExecStep::Stop(e) => assert_eq!(
            e.message(),
            "vmm error: exec of workload wl-1 timed out after 300s"
        ),
        other => panic!("{other:?}"),
    }
}

#[test]
fn white_space_is_trimmed() {
    let white: Vec<u32> = (0..=0x10ffff)
        .filter_map(char::from_u32)
        .filter(|c| text::trim(&c.to_string()).is_empty())
        .map(|c| c as u32)
        .collect();
    let mut expected: Vec<u32> = (9..=13).collect();
    expected.extend([0x20, 0x85, 0xa0, 0x1680]);
    expected.extend(0x2000..=0x200a);
    expected.extend([0x2028, 0x2029, 0x202f, 0x205f, 0x3000]);
    assert_eq!(white, expected);
    assert_eq!(text::trim("\t a b\u{3000}\n"), "a b");
}
