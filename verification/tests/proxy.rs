use tikovm::error::Error;
use tikovm::net::cidr::Ipv4Addr;
use tikovm::proxy::http;
use tikovm::proxy::options::{extract_from_options, split_opts, TOKEN_PARAM};
use tikovm::proxy::target::{self, ProbeStep, ProxyError, TargetStep};
use tikovm::proxy::tcp::{
    self, build_startup, error_response, looks_like_postgres, parse_startup, strip_token,
    StartupStep, CANCEL_REQUEST, GSSENC_REQUEST, MAX_STARTUP_FRAME, PROTOCOL_V3, SSL_REQUEST,
};
use tikovm::proxy::token::{
    accept_token, read_claims, Claims, Proto, ProxyTokens, TokenFailure, TokenField, MAX_TTL_SECS,
};
use tikovm::vmm::firecracker::FirecrackerVmm;
use tikovm::vmm::vm::VmId;

fn startup_frame(params: &[(String, String)]) -> Vec<u8> {
    build_startup(params)
}

fn params(pairs: &[(&str, &str)]) -> Vec<(String, String)> {
    pairs.iter().map(|(k, v)| (k.to_string(), v.to_string())).collect()
}

#[test]
fn sniff_accepts_postgres_startup() {
    let frame = startup_frame(&params(&[("user", "postgres")]));
    assert!(looks_like_postgres(&frame[..8]));
}

#[test]
fn sniff_accepts_ssl_and_gss_requests() {
    for code in [SSL_REQUEST, GSSENC_REQUEST, CANCEL_REQUEST] {
        let mut frame = 8u32.to_be_bytes().to_vec();
        frame.extend_from_slice(&code.to_be_bytes());
        assert!(looks_like_postgres(&frame));
    }
}

#[test]
fn sniff_rejects_http() {
    assert!(!looks_like_postgres(b"GET / HT"));
    assert!(!looks_like_postgres(b"POST /ap"));
}

#[test]
fn sniff_rejects_short_or_implausible() {
    assert!(!looks_like_postgres(b"\0\0\0"));
    // Length field smaller than a frame header.
    assert!(!looks_like_postgres(&4u32.to_be_bytes()));
    // Length field beyond the startup cap.
    let mut frame = (MAX_STARTUP_FRAME as u32 + 1).to_be_bytes().to_vec();
    frame.extend_from_slice(&PROTOCOL_V3.to_be_bytes());
    assert!(!looks_like_postgres(&frame));
    // Unknown protocol code.
    let mut frame = 8u32.to_be_bytes().to_vec();
    frame.extend_from_slice(&42u32.to_be_bytes());
    assert!(!looks_like_postgres(&frame));
}

#[test]
fn startup_roundtrip() {
    let original = params(&[
        ("user", "postgres"),
        ("database", "postgres"),
        (TOKEN_PARAM, "jwt"),
        ("application_name", "psql"),
    ]);
    let frame = startup_frame(&original);
    let parsed = parse_startup(&frame).unwrap();
    assert_eq!(parsed, original);
}

#[test]
fn rewrite_strips_token() {
    let original = params(&[("user", "postgres"), (TOKEN_PARAM, "jwt")]);
    let frame = startup_frame(&original);
    let parsed = parse_startup(&frame).unwrap();
    let (token, forwarded) = strip_token(parsed);
    assert_eq!(token.as_deref(), Some("jwt"));
    let rewritten = build_startup(&forwarded);
    let reparsed = parse_startup(&rewritten).unwrap();
    assert_eq!(reparsed, params(&[("user", "postgres")]));
    // The recomputed length must match the frame size.
    let len = u32::from_be_bytes(rewritten[0..4].try_into().unwrap()) as usize;
    assert_eq!(len, rewritten.len());
}

#[test]
fn parse_rejects_truncated() {
    assert!(parse_startup(b"\0\0\0\x0c\0\x03\0\0user").is_none());
}

#[test]
fn options_extract_basic() {
    let (token, rest) = extract_from_options("-c tikovm_token=JWT");
    assert_eq!(token.as_deref(), Some("JWT"));
    assert_eq!(rest, "");
}

#[test]
fn options_extract_preserves_others() {
    let (token, rest) =
        extract_from_options("-c search_path=public -c tikovm_token=JWT --opt='a b' -c geqo=off");
    assert_eq!(token.as_deref(), Some("JWT"));
    assert_eq!(rest, "-c search_path=public --opt='a b' -c geqo=off");
}

#[test]
fn options_extract_glued_and_quoted() {
    let (token, rest) = extract_from_options("-ctikovm_token=JWT");
    assert_eq!(token.as_deref(), Some("JWT"));
    assert_eq!(rest, "");

    let (token, _) = extract_from_options("-c 'tikovm_token=quoted'");
    assert_eq!(token.as_deref(), Some("quoted"));
}

#[test]
fn options_extract_absent() {
    let (token, rest) = extract_from_options("-c geqo=off");
    assert_eq!(token, None);
    assert_eq!(rest, "-c geqo=off");
}

#[test]
fn error_frame_is_well_formed() {
    let frame = error_response("nope");
    assert_eq!(frame[0], b'E');
    let len = u32::from_be_bytes(frame[1..5].try_into().unwrap()) as usize;
    assert_eq!(len, frame.len() - 1);
    assert_eq!(*frame.last().unwrap(), 0);
    assert!(frame.windows(4).any(|w| w == b"nope"));
}

#[test]
fn options_words_keep_their_spans() {
    let words = split_opts(" -c  a\\ b 'x y'");
    assert_eq!(
        words,
        vec![(1, 3, "-c".to_string()), (5, 9, "a b".to_string()), (10, 15, "x y".to_string())]
    );
    assert!(split_opts("  ").is_empty());
}

#[test]
fn token_in_options_wins_once_and_is_removed() {
    let given = params(&[("user", "u"), ("options", "-c tikovm_token=T -c geqo=off")]);
    let (token, forwarded) = strip_token(given);
    assert_eq!(token.as_deref(), Some("T"));
    assert_eq!(forwarded, params(&[("user", "u"), ("options", "-c geqo=off")]));
    // A message without a token goes through unchanged.
    let plain = params(&[("user", "u"), ("options", "-c geqo=off")]);
    let (token, forwarded) = strip_token(params(&[("user", "u"), ("options", "-c geqo=off")]));
    assert_eq!(token, None);
    assert_eq!(forwarded, plain);
}

#[test]
fn frame_lengths_are_bounded() {
    assert_eq!(tcp::frame_len(&8u32.to_be_bytes()).unwrap(), 8);
    assert!(tcp::frame_len(&7u32.to_be_bytes()).is_err());
    assert!(tcp::frame_len(&(MAX_STARTUP_FRAME as u32 + 1).to_be_bytes()).is_err());
}

#[test]
fn startup_frames_are_answered() {
    let mut ssl = 8u32.to_be_bytes().to_vec();
    ssl.extend_from_slice(&SSL_REQUEST.to_be_bytes());
    assert!(matches!(tcp::on_frame(&ssl), StartupStep::RefuseEncryption));

    let mut cancel = 8u32.to_be_bytes().to_vec();
    cancel.extend_from_slice(&CANCEL_REQUEST.to_be_bytes());
    assert!(matches!(
        tcp::on_frame(&cancel),
        StartupStep::Reject(m) if m == "cancel requests are not supported through the proxy"
    ));

    let mut odd = 8u32.to_be_bytes().to_vec();
    odd.extend_from_slice(&42u32.to_be_bytes());
    assert!(matches!(
        tcp::on_frame(&odd),
        StartupStep::Reject(m) if m == "unsupported postgres protocol code 42"
    ));

    let bare = build_startup(&params(&[("user", "u")]));
    assert!(matches!(
        tcp::on_frame(&bare),
        StartupStep::Reject(m)
            if m == "missing proxy token (pass it as options='-c tikovm_token=<jwt>')"
    ));

    let good = build_startup(&params(&[("user", "u"), (TOKEN_PARAM, "t")]));
    match tcp::on_frame(&good) {
        StartupStep::Verify { token, forwarded } => {
            assert_eq!(token, "t");
            assert_eq!(forwarded, params(&[("user", "u")]));
        }
        _ => panic!("not verified"),
    }

    let broken = b"\0\0\0\x0c\0\x03\0\0user";
    assert!(matches!(
        tcp::on_frame(broken),
        StartupStep::Reject(m) if m == "malformed startup message"
    ));
}

#[test]
fn stripped_options_set_no_token() {
    for options in [
        "-c tikovm_token=a -c tikovm_token=b",
        "-ctikovm_token=a -c geqo=off '-c' tikovm_token=b",
        "-c 'tikovm_token=a b' --opt='c d",
        "-c tikovm_token=a x\\",
    ] {
        let (token, rest) = extract_from_options(options);
        assert!(token.is_some(), "{options}");
        assert_eq!(extract_from_options(&rest).0, None, "{options}");
    }
    // Words that a setting kept apart can form another.
    let (token, rest) = extract_from_options("-c -c tikovm_token=x tikovm_token=y");
    assert_eq!(token.as_deref(), Some("x"));
    assert_eq!(rest, "-c tikovm_token=y");
}

#[test]
fn other_options_keep_their_quoting() {
    let options = "--a='x  y' -c tikovm_token=t b\\ c \"d e\"";
    let (_, rest) = extract_from_options(options);
    assert_eq!(rest, "--a='x  y' b\\ c \"d e\"");
    let texts = |s: &str| split_opts(s).into_iter().map(|w| w.2).collect::<Vec<_>>();
    assert_eq!(texts(&rest), vec!["--a=x  y", "b c", "d e"]);
}

// --- tokens -----------------------------------------------------------------

fn vm_id() -> VmId {
    VmId::from("vm-1-test")
}

fn now_ms() -> u64 {
    chrono::Utc::now().timestamp_millis() as u64
}

#[test]
fn mint_verify_roundtrip() {
    let tokens = ProxyTokens::new();
    let (token, expires_at) = tokens.mint(&vm_id(), 8080, Proto::Http, 60).unwrap();
    let claims = tokens.verify(&token).unwrap();
    assert_eq!(claims.vm_id, "vm-1-test");
    assert_eq!(claims.port, 8080);
    assert_eq!(claims.proto, Proto::Http);
    assert!(claims.exp > claims.iat);
    assert!(expires_at > now_ms());
}

#[test]
fn ttl_is_clamped() {
    let tokens = ProxyTokens::new();
    let (_, expires_at) = tokens.mint(&vm_id(), 8080, Proto::Http, MAX_TTL_SECS * 10).unwrap();
    let max_exp = now_ms() + (MAX_TTL_SECS + 5) * 1000;
    assert!(expires_at <= max_exp);
}

#[test]
fn verify_rejects_wrong_secret() {
    let issuer = ProxyTokens::new();
    let other = ProxyTokens::new();
    let (token, _) = issuer.mint(&vm_id(), 8080, Proto::Http, 60).unwrap();
    assert!(matches!(other.verify(&token), Err(Error::ProxyToken(_))));
}

#[test]
fn verify_rejects_expired_token() {
    let tokens = ProxyTokens::new();
    // Issued two minutes ago and valid for one.
    let then = now_ms() - 120_000;
    let (token, _) = tokens.mint_at(&vm_id(), 8080, Proto::Http, 60, then).unwrap();
    let err = tokens.verify(&token).unwrap_err();
    assert!(matches!(err, Error::ProxyToken(ref m) if m == "token expired"));
}

#[test]
fn expiry_has_no_leeway() {
    let tokens = ProxyTokens::new();
    // Expired a few seconds ago.
    let (token, _) =
        tokens.mint_at(&vm_id(), 8080, Proto::Http, 10, now_ms() - 13_000).unwrap();
    let err = tokens.verify(&token).unwrap_err();
    assert!(matches!(err, Error::ProxyToken(ref m) if m == "token expired"));
    // Half of its life is left.
    let then = now_ms() - 60_000;
    let (token, _) = tokens.mint_at(&vm_id(), 8080, Proto::Tcp, 120, then).unwrap();
    let claims = tokens.verify(&token).unwrap();
    assert_eq!((claims.iat, claims.exp), (then / 1000, then / 1000 + 120));
}

#[test]
fn minted_tokens_are_signed_json() {
    let tokens = ProxyTokens { secret: vec![7; 32] };
    let (a, expires_at) = tokens.mint_at(&vm_id(), 80, Proto::Tcp, 0, 1_000_000).unwrap();
    let (b, _) = tokens.mint_at(&vm_id(), 80, Proto::Tcp, 0, 1_000_000).unwrap();
    assert_eq!(a, b);
    assert_eq!(a.split('.').count(), 3);
    // A lifetime of nothing becomes a second.
    assert_eq!(expires_at, 1_001_000);
    let (c, _) = tokens.mint_at(&vm_id(), 81, Proto::Tcp, 0, 1_000_000).unwrap();
    assert_ne!(a, c);
}

#[test]
fn fresh_secrets_differ() {
    assert_ne!(ProxyTokens::new().secret, ProxyTokens::new().secret);
}

#[test]
fn garbage_tokens_are_refused() {
    let err = ProxyTokens::new().verify("not a token").unwrap_err();
    assert!(matches!(err, Error::ProxyToken(ref m) if m.starts_with("invalid token: ")));
}

fn field(name: &str, text: Option<&str>, number: Option<u64>) -> TokenField {
    TokenField { name: name.to_string(), text: text.map(|t| t.to_string()), number }
}

#[test]
fn claims_need_all_their_fields() {
    let fields = vec![
        field("vm_id", Some("v"), None),
        field("port", None, Some(80)),
        field("proto", Some("tcp"), None),
        field("iat", None, Some(1)),
        field("exp", None, Some(2)),
    ];
    let c = read_claims(&fields).unwrap();
    assert_eq!((c.vm_id.as_str(), c.port, c.proto, c.iat, c.exp), ("v", 80, Proto::Tcp, 1, 2));
    assert_eq!(read_claims(&fields[1..]).unwrap_err(), "vm_id");
    assert_eq!(read_claims(&fields[..4]).unwrap_err(), "exp");
    let big = vec![field("vm_id", Some("v"), None), field("port", None, Some(70_000))];
    assert_eq!(read_claims(&big).unwrap_err(), "port");
}

#[test]
fn refused_tokens_say_why() {
    let claims = || {
        vec![
            field("vm_id", Some("v"), None),
            field("port", None, Some(80)),
            field("proto", Some("http"), None),
            field("iat", None, Some(1)),
            field("exp", None, Some(2)),
        ]
    };
    let invalid = || Err(TokenFailure::Invalid("x".to_string()));
    assert_eq!(accept_token(Ok(claims()), Ok(claims())).unwrap().port, 80);
    let e = accept_token(Ok(claims()), Err(TokenFailure::Expired)).unwrap_err();
    assert_eq!(e.message(), "proxy token error: token expired");
    let e = accept_token(Ok(claims()), invalid()).unwrap_err();
    assert_eq!(e.message(), "proxy token error: invalid token: x");
    let e = accept_token(invalid(), Err(TokenFailure::Expired)).unwrap_err();
    assert_eq!(e.message(), "proxy token error: invalid token: x");
    // A claim that is lacking comes before an expiry that is past.
    let e = accept_token(Ok(vec![]), Err(TokenFailure::Expired)).unwrap_err();
    assert!(e.message().contains("`vm_id`"));
}

#[test]
fn signed_tokens_must_hold_the_claims() {
    let tokens = ProxyTokens::new();
    let sign = |object: &serde_json::Map<String, serde_json::Value>| {
        let key = jsonwebtoken::EncodingKey::from_secret(&tokens.secret);
        jsonwebtoken::encode(&jsonwebtoken::Header::default(), object, &key).unwrap()
    };
    let mut object = serde_json::Map::new();
    object.insert("vm_id".to_string(), serde_json::Value::from("v"));
    object.insert("port".to_string(), serde_json::Value::from(80));
    object.insert("proto".to_string(), serde_json::Value::from("http"));
    object.insert("iat".to_string(), serde_json::Value::from(1));
    // Neither expiring nor expired: the claim itself is lacking.
    let e = tokens.verify(&sign(&object)).unwrap_err();
    assert!(e.message().starts_with("proxy token error: invalid token: JSON error: "), "{}", e.message());
    // Expired long ago, and lacking a claim.
    object.insert("exp".to_string(), serde_json::Value::from(2));
    object.remove("port");
    let e = tokens.verify(&sign(&object)).unwrap_err();
    assert!(e.message().starts_with("proxy token error: invalid token: JSON error: "), "{}", e.message());
    // Expired long ago.
    object.insert("port".to_string(), serde_json::Value::from(80));
    let e = tokens.verify(&sign(&object)).unwrap_err();
    assert_eq!(e.message(), "proxy token error: token expired");
    // For somebody else.
    object.insert("exp".to_string(), serde_json::Value::from(now_ms() / 1000 + 60));
    assert!(tokens.verify(&sign(&object)).is_ok());
    object.insert("aud".to_string(), serde_json::Value::from("other"));
    let e = tokens.verify(&sign(&object)).unwrap_err();
    assert_eq!(e.message(), "proxy token error: invalid token: InvalidAudience");
}

// --- HTTP -------------------------------------------------------------------

#[test]
fn requests_authenticate_by_bearer_token() {
    let tokens = ProxyTokens::new();
    let (token, _) = tokens.mint(&vm_id(), 8080, Proto::Http, 60).unwrap();
    let header = format!("Bearer {token}");
    let claims = http::authenticate(&tokens, Some(&header)).unwrap();
    assert_eq!((claims.vm_id.as_str(), claims.port), ("vm-1-test", 8080));

    let e = http::authenticate(&tokens, None).unwrap_err();
    assert_eq!((e.status, e.message.as_str()), (401, "missing bearer token"));
    let e = http::authenticate(&tokens, Some(&token)).unwrap_err();
    assert_eq!((e.status, e.message.as_str()), (401, "missing bearer token"));

    let (tcp_token, _) = tokens.mint(&vm_id(), 5432, Proto::Tcp, 60).unwrap();
    let header = format!("Bearer {tcp_token}");
    let e = http::authenticate(&tokens, Some(&header)).unwrap_err();
    assert_eq!((e.status, e.message.as_str()), (400, "token is not valid for HTTP proxying"));
}

#[test]
fn connections_authenticate_by_startup_token() {
    let tokens = ProxyTokens::new();
    let (token, _) = tokens.mint(&vm_id(), 5432, Proto::Tcp, 60).unwrap();
    let claims = tcp::authenticate_tcp(&tokens, &token).unwrap();
    assert_eq!((claims.vm_id.as_str(), claims.port), ("vm-1-test", 5432));
    let (token, _) = tokens.mint(&vm_id(), 8080, Proto::Http, 60).unwrap();
    assert_eq!(
        tcp::authenticate_tcp(&tokens, &token).unwrap_err(),
        "token is not valid for TCP proxying"
    );
    let (token, _) =
        tokens.mint_at(&vm_id(), 5432, Proto::Tcp, 10, now_ms() - 60_000).unwrap();
    assert_eq!(
        tcp::authenticate_tcp(&tokens, &token).unwrap_err(),
        "proxy token error: token expired"
    );
}

#[test]
fn tokens_are_good_for_their_mode_only() {
    let claims = |proto| Claims { vm_id: "v".to_string(), port: 1, proto, iat: 0, exp: 1 };
    assert!(http::accept_for_http(Ok(claims(Proto::Http))).is_ok());
    assert_eq!(http::accept_for_http(Ok(claims(Proto::Tcp))).unwrap_err().status, 400);
    assert!(tcp::accept_for_tcp(Ok(claims(Proto::Tcp))).is_ok());
    assert_eq!(
        tcp::accept_for_tcp(Ok(claims(Proto::Http))).unwrap_err(),
        "token is not valid for TCP proxying"
    );
    let refused = http::accept_for_http(Err(Error::ProxyToken("x".to_string()))).unwrap_err();
    assert_eq!((refused.status, refused.message.as_str()), (401, "proxy token error: x"));
}

#[test]
fn hop_headers_and_the_proxy_token_stay_behind() {
    for name in ["host", "authorization", "connection", "keep-alive", "te", "upgrade"] {
        assert!(http::strips_request_header(name), "{name}");
    }
    assert!(!http::strips_request_header("cookie"));
    assert!(!http::strips_response_header("authorization"));
    assert!(http::strips_response_header("transfer-encoding"));
}

#[test]
fn requests_go_to_the_guest() {
    let to = http::authority(Ipv4Addr::new(172, 16, 0, 2), 8080);
    assert_eq!(to, "172.16.0.2:8080");
    assert_eq!(http::upstream_uri(&to, Some("/a?b=c")), "http://172.16.0.2:8080/a?b=c");
    assert_eq!(http::upstream_uri(&to, None), "http://172.16.0.2:8080/");
    let e = http::upstream_failed(8080, "refused");
    assert_eq!((e.status, e.message.as_str()), (502, "failed to reach guest port 8080: refused"));
}

#[test]
fn failures_are_answered_as_json() {
    let e = ProxyError::new(404, "no \"such\" vm");
    assert_eq!(e.body(), r#"{"error":{"code":404,"message":"no \"such\" vm"}}"#);
}

// --- targets ----------------------------------------------------------------

#[test]
fn unknown_vms_are_not_found() {
    let vmm = FirecrackerVmm::new("/assets", "/work");
    let claims =
        Claims { vm_id: "vm-1-x".to_string(), port: 80, proto: Proto::Http, iat: 0, exp: 1 };
    match target::resolve_target(&vmm, &claims, false) {
        TargetStep::Refuse(e) => {
            assert_eq!((e.status, e.message.as_str()), (404, "vm not found"))
        }
        _ => panic!("found"),
    }
}

#[test]
fn ports_are_probed_after_a_wake() {
    assert!(matches!(target::wait_for_port(80, None, false), ProbeStep::Up));
    let refused = || Some("refused".to_string());
    assert!(matches!(target::wait_for_port(80, refused(), true), ProbeStep::Retry));
    match target::wait_for_port(80, refused(), false) {
        ProbeStep::Refuse(e) => {
            assert_eq!(e.status, 502);
            assert_eq!(e.message, "guest port 80 did not come up after wake: refused");
        }
        _ => panic!("not refused"),
    }
    let e = target::wake_failed(Error::VmNotFound("v".to_string()));
    assert_eq!((e.status, e.message.as_str()), (409, "vm v not found"));
}
