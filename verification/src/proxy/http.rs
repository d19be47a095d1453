//! HTTP through the proxy: whom a request is from, and what of it is passed on.

use vstd::prelude::*;

use crate::error::Error;
use crate::net::cidr::Ipv4Addr;
use crate::proxy::target::ProxyError;
use crate::proxy::token::{Claims, Proto, ProxyTokens};
use crate::text;

verus! {

/// The token in an `Authorization` header, if it is a bearer token.
pub open spec fn bearer_of(header: Option<Seq<char>>) -> Option<Seq<char>> {
    match header {
        Some(value) => text::after_prefix(value, "Bearer "@),
        None => None,
    }
}

/// The token in an `Authorization` header, if it is a bearer token.
pub fn bearer_token(header: Option<&str>) -> (token: Option<String>)
    ensures
        text::opt_view(token) == bearer_of(
            match header {
                Some(h) => Some(h@),
                None => None,
            },
        ),
{
    match header {
        Some(value) => text::strip_prefix(value, "Bearer "),
        None => None,
    }
}

/// What a verified token is answered for HTTP proxying: its claims, or the
/// refusal.
pub open spec fn http_answer(
    verified: Result<Claims, Error>,
    r: Result<Claims, ProxyError>,
) -> bool {
    match verified {
        Ok(c) => if c.proto == Proto::Http {
            r == Ok::<Claims, ProxyError>(c)
        } else {
            r matches Err(e) && e.status == 400 && e.message@
                == "token is not valid for HTTP proxying"@
        },
        Err(why) => r matches Err(e) && e.status == 401 && e.message@ == crate::error::error_text(
            why,
        ),
    }
}

/// Lets a verified token in for HTTP proxying: its claims, or the refusal.
pub fn accept_for_http(verified: Result<Claims, Error>) -> (r: Result<Claims, ProxyError>)
    ensures
        http_answer(verified, r),
{
    match verified {
        Ok(c) => if c.proto == Proto::Http {
            Ok(c)
        } else {
            Err(ProxyError::new(400, "token is not valid for HTTP proxying"))
        },
        Err(why) => Err(ProxyError { status: 401, message: why.message() }),
    }
}

/// What a bearer token is answered: it goes by how it verifies, whatever the
/// clock reads.
pub open spec fn bearer_answer(
    secret: Seq<u8>,
    token: Seq<char>,
    r: Result<Claims, ProxyError>,
) -> bool {
    exists|now: u64, verified: Result<Claims, Error>| #[trigger]
        crate::proxy::token::verified_at(secret, token, now, verified) && http_answer(verified, r)
}

/// Authenticates a request by its `Authorization` header. The claims name the
/// target. A bearer token is answered as it verifies: one that was minted for
/// HTTP gives back what it was minted for until it has expired.
pub fn authenticate(tokens: &ProxyTokens, header: Option<&str>) -> (r: Result<Claims, ProxyError>)
    ensures
        match bearer_of(
            match header {
                Some(h) => Some(h@),
                None => None,
            },
        ) {
            None => r matches Err(e) && e.status == 401 && e.message@ == "missing bearer token"@,
            Some(token) => bearer_answer(tokens.secret@, token, r),
        },
{
    match bearer_token(header) {
        None => Err(ProxyError::new(401, "missing bearer token")),
        Some(token) => {
            let verified = tokens.verify(&token);
            let ghost seen = verified;
            let r = accept_for_http(verified);
            proof {
                let now = choose|now: u64| #[trigger]
                    crate::proxy::token::verified_at(tokens.secret@, token@, now, seen);
                assert(crate::proxy::token::verified_at(tokens.secret@, token@, now, seen));
            }
            r
        },
    }
}

/// Headers that concern one hop only and are passed on in neither direction.
pub open spec fn hop_by_hop(name: Seq<char>) -> bool {
    name == "connection"@ || name == "keep-alive"@ || name == "proxy-authenticate"@ || name
        == "proxy-authorization"@ || name == "te"@ || name == "trailer"@ || name
        == "transfer-encoding"@ || name == "upgrade"@
}

/// Headers of a request that are not passed on: besides those of one hop, the
/// host, which is rewritten, and the authorization, which is the proxy's own.
pub open spec fn stripped_request_header(name: Seq<char>) -> bool {
    name == "host"@ || name == "authorization"@ || hop_by_hop(name)
}

/// Whether a header of an answer, by its lower-case name, is not passed on.
pub fn strips_response_header(name: &str) -> (b: bool)
    ensures
        b == hop_by_hop(name@),
{
    text::str_eq(name, "connection") || text::str_eq(name, "keep-alive") || text::str_eq(
        name,
        "proxy-authenticate",
    ) || text::str_eq(name, "proxy-authorization") || text::str_eq(name, "te") || text::str_eq(
        name,
        "trailer",
    ) || text::str_eq(name, "transfer-encoding") || text::str_eq(name, "upgrade")
}

/// Whether a header of a request, by its lower-case name, is not passed on.
pub fn strips_request_header(name: &str) -> (b: bool)
    ensures
        b == stripped_request_header(name@),
{
    text::str_eq(name, "host") || text::str_eq(name, "authorization") || strips_response_header(
        name,
    )
}

/// The guest's address and port, as the host that a request is passed on to.
pub fn authority(guest_ip: Ipv4Addr, port: u16) -> (s: String)
    ensures
        s@ == crate::net::cidr::ip_text(guest_ip) + ":"@ + text::decimal(port as nat),
{
    text::cat3(&guest_ip.to_text(), ":", &text::decimal_string(port as u64))
}

/// Where a request is passed on to; one without a path goes to the root.
pub fn upstream_uri(authority: &str, path_and_query: Option<&str>) -> (s: String)
    ensures
        s@ == "http://"@ + authority@ + match path_and_query {
            Some(p) => p@,
            None => "/"@,
        },
{
    let path = match path_and_query {
        Some(p) => p,
        None => "/",
    };
    text::cat3("http://", authority, path)
}

/// The refusal when the guest could not be reached.
pub fn upstream_failed(port: u16, why: &str) -> (e: ProxyError)
    ensures
        e.status == 502,
        e.message@ == "failed to reach guest port "@ + text::decimal(port as nat) + ": "@ + why@,
{
    ProxyError {
        status: 502,
        message: text::cat4(
            "failed to reach guest port ",
            &text::decimal_string(port as u64),
            ": ",
            why,
        ),
    }
}

} // verus!
