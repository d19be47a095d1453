//! What the proxy is for: who is let through to which port of which VM, and what
//! of a connection is passed on.

use vstd::prelude::*;
use vstd::utf8::encode_utf8;

use crate::api::routes::{asked_proto, asked_ttl, mint_refusal, MintRefusal};
use crate::error::Error;
use crate::json::{object_text, says, ValueView};
use crate::proxy::http::{
    bearer_answer, bearer_of, hop_by_hop, http_answer, stripped_request_header,
};
use crate::proxy::options::{first_setting, scan_word, setting_at};
use crate::proxy::target::{error_body_of, target_for, ProxyError, TargetStep};
use crate::proxy::tcp::{
    error_frame, forwarded_params, message_token, param_rest, param_token, plausible_frame_len,
    startup_code, tcp_answer,
};
use crate::proxy::token::{
    claim_token, granted_ttl, lacking_claim, minted, number_field, proto_name, text_field, unminted,
    verified_at, Claims, Proto,
};
use crate::vmm::firecracker::{FcVmEntry, FirecrackerVmm};
use crate::vmm::state::VmState;

verus! {

// ---------------------------------------------------------------------------
// Where connections go
// ---------------------------------------------------------------------------

/// Whether a VM lists a port among its exposed ones.
pub open spec fn lists_port(e: FcVmEntry, port: u16) -> bool {
    exists|k: int|
        0 <= k < e.instance.vm_config.network_config.exposed_ports@.len() && (
        #[trigger] e.instance.vm_config.network_config.exposed_ports@[k]).port == port
}

/// A connection to an exposed port of a started VM is forwarded to that VM's own
/// address, whether or not the VM was woken for it; the port is waited for
/// exactly if it was.
pub proof fn law_live_port_is_forwarded(step: TargetStep, e: FcVmEntry, port: u16, woken: bool)
    requires
        target_for(step, e, port, woken),
        e.instance.state is Started,
        lists_port(e, port),
        e.instance.net is Some,
    ensures
        step == (TargetStep::Forward { guest_ip: e.instance.net->0.guest_ip, probe: woken }),
{
}

/// A VM that sleeps, or is on its way to sleep or back, is woken for a
/// connection, whichever port it is to; a VM in any other state is not.
pub proof fn law_sleeping_vm_is_woken(step: TargetStep, e: FcVmEntry, port: u16)
    requires
        target_for(step, e, port, false),
    ensures
        step is Wake <==> e.instance.state == VmState::Suspended || e.instance.state
            == VmState::Suspending || e.instance.state == VmState::Restoring,
{
}

/// A VM is woken for a connection at most once, and one that is not started then
/// refuses it.
pub proof fn law_connection_wakes_once(step: TargetStep, e: FcVmEntry, port: u16)
    requires
        target_for(step, e, port, true),
    ensures
        !(step is Wake),
        !(e.instance.state is Started) ==> step is Refuse && step->Refuse_0.status == 409,
        e.instance.state is Started && !lists_port(e, port) ==> step is Refuse
            && step->Refuse_0.status == 403,
{
}

/// What a failure is answered with holds the status and the message.
pub proof fn law_failure_tells_status_and_message(status: u16, message: Seq<char>)
    ensures
        exists|fields: Seq<(Seq<char>, ValueView)>|
            error_body_of(status, message) == "{\"error\":"@ + #[trigger] object_text(fields)
                + "}"@ && fields.len() == 2 && says(
                fields,
                "code"@,
                ValueView::Number(status as nat),
            ) && says(fields, "message"@, ValueView::Text(message)),
{
    reveal_strlit("code");
    reveal_strlit("message");
    assert("code"@.len() == 4);
    assert("message"@.len() == 7);
    let fields = seq![
        ("code"@, ValueView::Number(status as nat)),
        ("message"@, ValueView::Text(message)),
    ];
    assert(fields[0] == ("code"@, ValueView::Number(status as nat)));
    assert(fields[1] == ("message"@, ValueView::Text(message)));
    assert(error_body_of(status, message) == "{\"error\":"@ + object_text(fields) + "}"@);
}

// ---------------------------------------------------------------------------
// Tokens
// ---------------------------------------------------------------------------

/// What stands behind `Bearer ` is the token, all of it; any other header, and
/// none, gives none.
pub proof fn law_bearer_token_is_read(token: Seq<char>, header: Seq<char>)
    ensures
        bearer_of(Some("Bearer "@ + token)) == Some(token),
        bearer_of(None) is None,
        bearer_of(Some(header)) is Some ==> header == "Bearer "@ + bearer_of(Some(header))->0,
{
    let h = "Bearer "@ + token;
    let n = "Bearer "@.len() as int;
    assert(h.take(n) =~= "Bearer "@);
    assert(h.skip(n) =~= token);
    if bearer_of(Some(header)) is Some {
        assert(header =~= header.take(n) + header.skip(n));
    }
}

/// A token is let in for the forwarding mode that it was minted for, with what
/// it says, and for no other.
pub proof fn law_token_is_for_one_mode(
    claims: Claims,
    over_http: Result<Claims, ProxyError>,
    over_tcp: Result<Claims, String>,
)
    requires
        http_answer(Ok(claims), over_http),
        tcp_answer(Ok(claims), over_tcp),
    ensures
        claims.proto is Http ==> over_http == Ok::<Claims, ProxyError>(claims) && over_tcp is Err,
        claims.proto is Tcp ==> over_tcp == Ok::<Claims, String>(claims) && over_http is Err,
{
}

/// A token that does not verify is let in for nothing.
pub proof fn law_refused_token_is_not_let_in(
    why: Error,
    over_http: Result<Claims, ProxyError>,
    over_tcp: Result<Claims, String>,
)
    requires
        http_answer(Err(why), over_http),
        tcp_answer(Err(why), over_tcp),
    ensures
        over_http is Err && over_http->Err_0.status == 401,
        over_tcp is Err,
{
}

/// From minting to use: a token that was minted for HTTP names, until it has
/// expired, exactly the VM and the port that it was minted for, and none
/// afterwards; over TCP it is of no use.
pub proof fn law_minted_token_names_its_target(
    secret: Seq<u8>,
    vm_id: Seq<char>,
    port: u16,
    proto: Proto,
    ttl_secs: u64,
    minted_at: u64,
    token: Seq<char>,
    expires_at: u64,
    now: u64,
    verified: Result<Claims, Error>,
    over_http: Result<Claims, ProxyError>,
    over_tcp: Result<Claims, String>,
)
    requires
        minted(secret, vm_id, port, proto, ttl_secs, minted_at, token, expires_at),
        verified_at(secret, token, now, verified),
        http_answer(verified, over_http),
        tcp_answer(verified, over_tcp),
    ensures
        over_http is Ok <==> proto is Http && now <= expires_at / 1000,
        over_http is Ok ==> over_http->Ok_0.vm_id@ == vm_id && over_http->Ok_0.port == port,
        over_tcp is Ok <==> proto is Tcp && now <= expires_at / 1000,
        over_tcp is Ok ==> over_tcp->Ok_0.vm_id@ == vm_id && over_tcp->Ok_0.port == port,
{
    crate::proxy::token::law_minted_token_verifies_until_expiry(
        secret,
        vm_id,
        port,
        proto,
        ttl_secs,
        minted_at,
        token,
        expires_at,
        now,
        verified,
    );
}

/// A lifetime between a second and a day is granted as it was asked for; a
/// shorter one becomes a second, a longer one a day.
pub proof fn law_lifetime_is_granted(ttl_secs: u64)
    ensures
        1 <= ttl_secs <= 24 * 60 * 60 ==> granted_ttl(ttl_secs) == ttl_secs,
        ttl_secs == 0 ==> granted_ttl(ttl_secs) == 1,
        ttl_secs > 24 * 60 * 60 ==> granted_ttl(ttl_secs) == 24 * 60 * 60,
{
}

/// A token is minted exactly for ports that a registered VM exposes right now,
/// and a request that says neither gets a quarter of an hour of HTTP.
pub proof fn law_tokens_are_for_exposed_ports(
    vmm: FirecrackerVmm,
    vm_id: Seq<char>,
    port: u16,
    proto: Proto,
    ttl_secs: u64,
)
    ensures
        mint_refusal(vmm, vm_id, port) is None <==> exists|i: int|
            0 <= i < vmm.vms@.len() && (#[trigger] vmm.vms@[i]).instance.vm_id.0@ == vm_id
                && lists_port(vmm.vms@[i], port) && forall|j: int|
                0 <= j < i ==> (#[trigger] vmm.vms@[j]).instance.vm_id.0@ != vm_id,
        mint_refusal(vmm, vm_id, port) == Some(MintRefusal::NoVm) <==> forall|i: int|
            0 <= i < vmm.vms@.len() ==> (#[trigger] vmm.vms@[i]).instance.vm_id.0@ != vm_id,
        asked_proto(None) is Http,
        asked_proto(Some(proto)) == proto,
        asked_ttl(None) == 15 * 60,
        asked_ttl(Some(ttl_secs)) == ttl_secs,
{
    crate::vmm::firecracker::lemma_vm_index(vmm.vms@, vm_id);
    let k = crate::vmm::firecracker::vm_index(vmm.vms@, vm_id) as int;
    if k < vmm.vms@.len() {
        assert(vmm.vms@[k].instance.vm_id.0@ == vm_id);
        assert(crate::net::types::exposes(crate::vmm::guest::ports_of(vmm.vms@[k]), port)
            == lists_port(vmm.vms@[k], port));
        assert forall|j: int| 0 <= j < k implies (#[trigger] vmm.vms@[j]).instance.vm_id.0@
            != vm_id by {
            assert(!crate::vmm::firecracker::is_vm(vmm.vms@[j], vm_id));
        }
    } else {
        assert forall|j: int| 0 <= j < vmm.vms@.len() implies (
        #[trigger] vmm.vms@[j]).instance.vm_id.0@ != vm_id by {
            assert(!crate::vmm::firecracker::is_vm(vmm.vms@[j], vm_id));
        }
    }
}

/// The claims of a token are all there exactly if it names a VM, a port that is
/// one, a forwarding mode and both times.
pub proof fn law_claims_are_complete(
    fields: Seq<(Seq<char>, Option<Seq<char>>, Option<u64>)>,
)
    ensures
        lacking_claim(fields) is None <==> text_field(fields, "vm_id"@) is Some && (number_field(
            fields,
            "port"@,
        ) is Some && number_field(fields, "port"@)->0 <= 65535) && (text_field(
            fields,
            "proto"@,
        ) == Some("http"@) || text_field(fields, "proto"@) == Some("tcp"@)) && number_field(
            fields,
            "iat"@,
        ) is Some && number_field(fields, "exp"@) is Some,
{
    assert(proto_name(Proto::Http) == "http"@);
    assert(proto_name(Proto::Tcp) == "tcp"@);
}

// ---------------------------------------------------------------------------
// HTTP
// ---------------------------------------------------------------------------

/// The headers that concern one hop only.
pub open spec fn one_hop_headers() -> Seq<Seq<char>> {
    seq![
        "connection"@,
        "keep-alive"@,
        "proxy-authenticate"@,
        "proxy-authorization"@,
        "te"@,
        "trailer"@,
        "transfer-encoding"@,
        "upgrade"@,
    ]
}

/// Every header is passed on but those that concern one hop only, in both
/// directions; of a request neither the host, which is rewritten, nor the
/// authorization, which is the proxy's own, reaches the guest.
pub proof fn law_headers_that_are_passed_on(name: Seq<char>)
    ensures
        hop_by_hop(name) <==> one_hop_headers().contains(name),
        stripped_request_header(name) <==> one_hop_headers().contains(name) || name == "host"@
            || name == "authorization"@,
{
    let h = one_hop_headers();
    assert(h[0] == "connection"@);
    assert(h[1] == "keep-alive"@);
    assert(h[2] == "proxy-authenticate"@);
    assert(h[3] == "proxy-authorization"@);
    assert(h[4] == "te"@);
    assert(h[5] == "trailer"@);
    assert(h[6] == "transfer-encoding"@);
    assert(h[7] == "upgrade"@);
}

// ---------------------------------------------------------------------------
// Postgres
// ---------------------------------------------------------------------------

/// A connection is taken for Postgres by the codes that its clients open with:
/// protocol 3.0, and the requests whose codes are made of 1234 and 5678 to 5680.
pub proof fn law_startup_codes(code: nat)
    ensures
        startup_code(code) <==> code == 3 * 65536 || code == 1234 * 65536 + 5678 || code == 1234
            * 65536 + 5679 || code == 1234 * 65536 + 5680,
{
}

/// A frame of at least eight bytes, for length and code, is taken up to 16 KiB.
pub proof fn law_frames_that_are_taken(len: nat)
    ensures
        plausible_frame_len(len) <==> 8 <= len && len <= 16 * 1024,
{
}

/// The token is taken out of a startup message parameter by parameter: each is
/// passed on, or not, by itself and in its place.
pub proof fn law_parameters_are_passed_on_one_by_one(
    a: Seq<(Seq<char>, Seq<char>)>,
    b: Seq<(Seq<char>, Seq<char>)>,
)
    ensures
        forwarded_params(a + b) == forwarded_params(a) + forwarded_params(b),
    decreases b.len(),
{
    if b.len() == 0 {
        assert(a + b =~= a);
        assert(forwarded_params(a) + forwarded_params(b) =~= forwarded_params(a));
    } else {
        law_parameters_are_passed_on_one_by_one(a, b.drop_last());
        assert((a + b).drop_last() =~= a + b.drop_last());
        assert((a + b).last() == b.last());
        assert(forwarded_params(a + b) =~= forwarded_params(a) + forwarded_params(b));
    }
}

/// A parameter that has nothing to do with the token is passed on as it is; the
/// token is not; and of options that set it what else they hold is, if anything.
pub proof fn law_what_becomes_of_a_parameter(p: (Seq<char>, Seq<char>))
    ensures
        p.0 != "tikovm_token"@ && p.0 != "options"@ ==> forwarded_params(seq![p]) == seq![p]
            && message_token(seq![p]) is None,
        p.0 == "tikovm_token"@ ==> forwarded_params(seq![p]).len() == 0 && message_token(seq![p])
            == Some(p.1),
        p.0 == "options"@ ==> ({
            let token = crate::proxy::options::options_token(p.1);
            let rest = crate::proxy::options::options_rest(p.1);
            &&& message_token(seq![p]) == token
            &&& token is None ==> forwarded_params(seq![p]) == seq![p]
            &&& token is Some && rest.len() > 0 ==> forwarded_params(seq![p]) == seq![(p.0, rest)]
            &&& token is Some && rest.len() == 0 ==> forwarded_params(seq![p]).len() == 0
        }),
{
    reveal_strlit("options");
    reveal_strlit("tikovm_token");
    assert("options"@.len() == 7);
    assert("tikovm_token"@.len() == 12);
    let one = seq![p];
    assert(one.drop_last() =~= seq![]);
    assert(one.last() == p);
    assert(forwarded_params(seq![]) =~= seq![]);
    assert(message_token(seq![]) is None);
    assert(forwarded_params(one) =~= param_rest(p));
    assert(message_token(one) == param_token(p));
}

/// Of several tokens the last one counts, and a parameter without one changes
/// nothing about it.
pub proof fn law_last_token_counts(
    params: Seq<(Seq<char>, Seq<char>)>,
    p: (Seq<char>, Seq<char>),
)
    ensures
        message_token(params.push(p)) == match message_token(seq![p]) {
            Some(token) => Some(token),
            None => message_token(params),
        },
{
    assert(params.push(p).drop_last() =~= params);
    let one = seq![p];
    assert(one.drop_last() =~= seq![]);
    assert(message_token(seq![]) is None);
}

/// A failure is reported as a fatal one of Postgres, with the code for an
/// invalid authorization: that, and the message, is all that the frame holds.
pub proof fn law_error_frame_reads_as_fatal(message: Seq<char>)
    ensures
        ({
            let frame = error_frame(message);
            let fatal = encode_utf8("FATAL"@);
            let code = encode_utf8("28000"@);
            frame.len() >= 5 && frame.skip(5) == seq![83u8] + fatal + seq![0u8, 86u8] + fatal
                + seq![0u8, 67u8] + code + seq![0u8, 77u8] + encode_utf8(message) + seq![0u8, 0u8]
        }),
{
    let frame = error_frame(message);
    let fatal = encode_utf8("FATAL"@);
    let code = encode_utf8("28000"@);
    assert('S' as u8 == 83u8);
    assert('V' as u8 == 86u8);
    assert('C' as u8 == 67u8);
    assert('M' as u8 == 77u8);
    let body = crate::proxy::tcp::error_body(message);
    assert(frame.skip(5) =~= body);
    assert(body =~= seq![83u8] + fatal + seq![0u8, 86u8] + fatal + seq![0u8, 67u8] + code + seq![
        0u8,
        77u8,
    ] + encode_utf8(message) + seq![0u8, 0u8]);
}

/// A token is set by `-c` with `tikovm_token=` and the token behind it, as two
/// words or as one, and by nothing else.
pub proof fn law_token_settings(w: Seq<(int, int, Seq<char>)>, i: int, token: Seq<char>)
    requires
        0 <= i < w.len(),
    ensures
        i + 1 < w.len() && w[i].2 == "-c"@ && w[i + 1].2 == "tikovm_token="@ + token
            ==> setting_at(w, i) == Some((token, true)),
        w[i].2 == "-ctikovm_token="@ + token ==> setting_at(w, i) == Some((token, false)),
        setting_at(w, i) is Some ==> {
            let (value, pair) = setting_at(w, i)->0;
            if pair {
                i + 1 < w.len() && w[i].2 == "-c"@ && w[i + 1].2 == "tikovm_token="@ + value
            } else {
                w[i].2 == "-ctikovm_token="@ + value
            }
        },
{
    reveal_strlit("-c");
    reveal_strlit("tikovm_token=");
    reveal_strlit("-ctikovm_token=");
    let two = "tikovm_token="@;
    let one = "-ctikovm_token="@;
    assert("-c"@ + two =~= one);
    assert((two + token).take(two.len() as int) =~= two);
    assert((two + token).skip(two.len() as int) =~= token);
    assert((one + token).take(one.len() as int) =~= one);
    assert((one + token).skip(one.len() as int) =~= token);
    if w[i].2 == one + token {
        assert(w[i].2.len() >= 15);
        assert("-c"@.len() == 2);
    }
    if setting_at(w, i) is Some {
        let (value, pair) = setting_at(w, i)->0;
        if pair {
            let s = w[i + 1].2;
            assert(s =~= s.take(two.len() as int) + s.skip(two.len() as int));
        } else {
            let s = w[i].2;
            assert(s =~= s.take(one.len() as int) + s.skip(one.len() as int));
        }
    }
}

/// The first setting counts.
pub proof fn law_first_setting_counts(w: Seq<(int, int, Seq<char>)>, from: int, at: int)
    requires
        0 <= from <= at <= w.len(),
        at < w.len() ==> setting_at(w, at) is Some,
        forall|i: int| from <= i < at ==> setting_at(w, i) is None,
    ensures
        first_setting(w, from) == if at < w.len() {
            let (value, _) = setting_at(w, at)->0;
            Some(value)
        } else {
            None
        },
    decreases at - from,
{
    if from < at {
        assert(setting_at(w, from) is None);
        law_first_setting_counts(w, from + 1, at);
    }
}

/// Whether a byte stands for itself in a word.
pub open spec fn plain(b: u8) -> bool {
    b != 32 && b != 9 && b != 10 && b != 12 && b != 13 && b != 92 && b != 39 && b != 34
}

/// Bytes that are neither white space nor quotes nor backslashes make up a word
/// as they stand, up to white space or the end.
pub proof fn law_plain_word_is_itself(b: Seq<u8>, i: int, end: int)
    requires
        0 <= i <= end <= b.len(),
        forall|k: int| i <= k < end ==> plain(#[trigger] b[k]),
        end < b.len() ==> b[end] == 32 || b[end] == 9 || b[end] == 10 || b[end] == 12 || b[end]
            == 13,
    ensures
        scan_word(b, i, false, false) == (end, b.subrange(i, end)),
    decreases end - i,
{
    if i < end {
        law_plain_word_is_itself(b, i + 1, end);
        assert(plain(b[i]));
        assert(seq![b[i]] + b.subrange(i + 1, end) =~= b.subrange(i, end));
    } else {
        assert(b.subrange(i, end) =~= seq![]);
    }
}

/// Quotes group: what stands between two single quotes, or between two double
/// quotes without a backslash, belongs to the word as it stands, white space and
/// quotes of the other kind included, and the quotes themselves do not.
pub proof fn law_quotes_group(b: Seq<u8>, i: int, end: int, quote: u8)
    requires
        0 <= i < end < b.len(),
        quote == 39 || quote == 34,
        b[i] == quote,
        b[end] == quote,
        forall|k: int| i < k < end ==> #[trigger] b[k] != quote,
        quote == 34 ==> forall|k: int| i < k < end ==> #[trigger] b[k] != 92,
    ensures
        ({
            let (after, rest) = scan_word(b, end + 1, false, false);
            scan_word(b, i, false, false) == (after, b.subrange(i + 1, end) + rest)
        }),
{
    lemma_quoted(b, i + 1, end, quote);
    let (after, rest) = scan_word(b, end + 1, false, false);
    assert(scan_word(b, i, false, false) == scan_word(b, i + 1, quote == 39, quote == 34));
}

proof fn lemma_quoted(b: Seq<u8>, i: int, end: int, quote: u8)
    requires
        0 <= i <= end < b.len(),
        quote == 39 || quote == 34,
        b[end] == quote,
        forall|k: int| i <= k < end ==> #[trigger] b[k] != quote,
        quote == 34 ==> forall|k: int| i <= k < end ==> #[trigger] b[k] != 92,
    ensures
        ({
            let (after, rest) = scan_word(b, end + 1, false, false);
            scan_word(b, i, quote == 39, quote == 34) == (after, b.subrange(i, end) + rest)
        }),
    decreases end - i,
{
    let (after, rest) = scan_word(b, end + 1, false, false);
    if i < end {
        lemma_quoted(b, i + 1, end, quote);
        assert(b[i] != quote);
        assert(seq![b[i]] + (b.subrange(i + 1, end) + rest) =~= b.subrange(i, end) + rest);
    } else {
        assert(b.subrange(i, end) + rest =~= rest);
    }
}

/// A backslash makes the next byte literal, whatever it is.
pub proof fn law_backslash_escapes(b: Seq<u8>, i: int)
    requires
        0 <= i < b.len() - 1,
        b[i] == 92,
    ensures
        ({
            let (after, rest) = scan_word(b, i + 2, false, false);
            scan_word(b, i, false, false) == (after, seq![b[i + 1]] + rest)
        }),
{
}

/// The answer to a bearer token goes by what it was minted for: until it has
/// expired, a token for HTTP is answered with its VM and its port.
pub proof fn law_bearer_of_minted_token(
    secret: Seq<u8>,
    vm_id: Seq<char>,
    port: u16,
    ttl_secs: u64,
    minted_at: u64,
    token: Seq<char>,
    expires_at: u64,
    proto: Proto,
    r: Result<Claims, ProxyError>,
)
    requires
        minted(secret, vm_id, port, proto, ttl_secs, minted_at, token, expires_at),
        bearer_answer(secret, token, r),
    ensures
        r is Ok ==> proto is Http && r->Ok_0.vm_id@ == vm_id && r->Ok_0.port == port
            && r->Ok_0.exp == expires_at / 1000,
        r is Err ==> r->Err_0.status == 401 || (r->Err_0.status == 400 && proto is Tcp),
        r is Err && r->Err_0.status == 401 ==> r->Err_0.message@ == "proxy token error: "@
            + "token expired"@,
{
    let (now, verified) = choose|now: u64, verified: Result<Claims, Error>| #[trigger]
        verified_at(secret, token, now, verified) && http_answer(verified, r);
    crate::proxy::token::law_minted_token_verifies_until_expiry(
        secret,
        vm_id,
        port,
        proto,
        ttl_secs,
        minted_at,
        token,
        expires_at,
        now,
        verified,
    );
}

/// Minting fails only where signing does, and with its reason: whatever port,
/// mode and lifetime are asked for, a request that can be signed is.
pub proof fn law_minting_fails_only_where_signing_does(
    secret: Seq<u8>,
    vm_id: Seq<char>,
    port: u16,
    proto: Proto,
    ttl_secs: u64,
    now: u64,
    why: Seq<char>,
    token: Seq<char>,
    expires_at: u64,
)
    requires
        unminted(secret, vm_id, port, proto, ttl_secs, now, why),
        now <= i64::MAX,
    ensures
        exists|exp: u64|
            #[trigger] claim_token(secret, vm_id, port, proto, now / 1000, exp) == Err::<
                Seq<char>,
                Seq<char>,
            >(why) && exp * 1000 <= now + granted_ttl(ttl_secs) * 1000 < exp * 1000 + 1000,
        !minted(secret, vm_id, port, proto, ttl_secs, now, token, expires_at),
{
    let end = (now + granted_ttl(ttl_secs) * 1000) as u64;
    assert(end == now + granted_ttl(ttl_secs) * 1000);
    let exp = end / 1000;
    assert(claim_token(secret, vm_id, port, proto, now / 1000, exp) == Err::<Seq<char>, Seq<char>>(
        why,
    ));
}

} // verus!
