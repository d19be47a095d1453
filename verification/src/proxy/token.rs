//! Ephemeral tokens authenticating proxy requests to a VM's exposed ports.
//!
//! A token is scoped to one VM and one exposed port. Tokens are signed with a
//! secret generated at startup and never persisted, so a restart invalidates
//! every outstanding token.

use vstd::prelude::*;

use crate::clock;
use crate::error::Error;
use crate::text;
use crate::vmm::vm::VmId;

verus! {

/// Token lifetime when the request does not ask for one.
pub const DEFAULT_TTL_SECS: u64 = 900;

/// Longest lifetime a request may ask for.
pub const MAX_TTL_SECS: u64 = 86400;

/// Forwarding mode a token is valid for.
#[derive(Debug, Clone, Copy, PartialEq, Eq, Structural)]
pub enum Proto {
    Http,
    Tcp,
}

/// The name a forwarding mode goes by in a token.
pub open spec fn proto_name(p: Proto) -> Seq<char> {
    match p {
        Proto::Http => "http"@,
        Proto::Tcp => "tcp"@,
    }
}

impl Proto {
    /// The name the mode goes by in a token.
    pub fn name(self) -> (s: &'static str)
        ensures
            s@ == proto_name(self),
    {
        match self {
            Proto::Http => "http",
            Proto::Tcp => "tcp",
        }
    }

    /// The mode of the given name.
    pub fn parse(name: &str) -> (p: Option<Proto>)
        ensures
            match p {
                Some(proto) => proto_name(proto) == name@,
                None => forall|proto: Proto| proto_name(proto) != name@,
            },
    {
        if text::str_eq(name, "http") {
            Some(Proto::Http)
        } else if text::str_eq(name, "tcp") {
            Some(Proto::Tcp)
        } else {
            None
        }
    }
}

/// What a token says: the forwarding target, and when the token was issued
/// and expires (in seconds since the Unix epoch).
#[derive(Debug)]
pub struct Claims {
    pub vm_id: String,
    pub port: u16,
    pub proto: Proto,
    pub iat: u64,
    pub exp: u64,
}

// ---------------------------------------------------------------------------
// Signed tokens
// ---------------------------------------------------------------------------

/// A named field of a token: a text or a number (or neither, for a value that
/// is neither).
#[derive(Debug)]
pub struct TokenField {
    pub name: String,
    pub text: Option<String>,
    pub number: Option<u64>,
}

/// The view of a field.
pub open spec fn field_view(f: TokenField) -> (Seq<char>, Option<Seq<char>>, Option<u64>) {
    (f.name@, text::opt_view(f.text), f.number)
}

/// The views of fields.
pub open spec fn fields_view(fields: Seq<TokenField>) -> Seq<
    (Seq<char>, Option<Seq<char>>, Option<u64>),
> {
    fields.map_values(|f: TokenField| field_view(f))
}

/// The signed token that `jsonwebtoken::encode` makes of a JSON object with
/// the given fields, under a secret; the reason if it makes none.
pub uninterp spec fn signed_token(
    secret: Seq<u8>,
    fields: Seq<(Seq<char>, Option<Seq<char>>, Option<u64>)>,
) -> Result<Seq<char>, Seq<char>>;

/// Whether fields can be signed and read back: each is a text or a number, no
/// name occurs twice, there is an expiry, and no audience (which the reader
/// would have to be named in).
pub open spec fn readable_fields(
    fields: Seq<(Seq<char>, Option<Seq<char>>, Option<u64>)>,
) -> bool {
    &&& forall|i: int| 0 <= i < fields.len() ==> (#[trigger] fields[i]).1 is Some != fields[i].2 is Some
    &&& forall|i: int, j: int|
        0 <= i < j < fields.len() ==> (#[trigger] fields[i]).0 != (#[trigger] fields[j]).0
    &&& exists|i: int|
        0 <= i < fields.len() && (#[trigger] fields[i]).0 == "exp"@ && fields[i].2 is Some
    &&& forall|i: int| 0 <= i < fields.len() ==> (#[trigger] fields[i]).0 != "aud"@
}

/// Why a token was not accepted.
#[derive(Debug)]
pub enum TokenFailure {
    /// The signature is good, but the token has expired.
    Expired,
    /// Anything else, with the reason.
    Invalid(String),
}

/// Calls `jsonwebtoken::encode` with the default header (HS256) on a JSON
/// object of the given fields. What comes out, a token or the reason that there
/// is none, is a function of the secret and the fields.
#[verifier::external_body]
fn encode_token(fields: &[TokenField], secret: &[u8]) -> (r: Result<String, String>)
    ensures
        signed_token(secret@, fields_view(fields@)) == match r {
            Ok(token) => Ok::<Seq<char>, Seq<char>>(token@),
            Err(why) => Err(why@),
        },
{
    let object: serde_json::Map<String, serde_json::Value> = fields.iter().map(
        |f| (f.name.clone(), f.text.clone().map_or(serde_json::Value::from(f.number), serde_json::Value::from)),
    ).collect();
    let key = jsonwebtoken::EncodingKey::from_secret(secret);
    jsonwebtoken::encode(&jsonwebtoken::Header::default(), &object, &key).map_err(|e| e.to_string())
}

/// The fields that `jsonwebtoken::decode` reads out of a token under a secret;
/// the reason if it refuses the token. With a time, in seconds since the Unix
/// epoch, it also validates what the token claims, its expiry with a leeway at
/// that time; nothing stands for a token that has expired by then.
pub uninterp spec fn decoded_token(
    secret: Seq<u8>,
    token: Seq<char>,
    leeway: u64,
    at: Option<u64>,
) -> Result<Seq<(Seq<char>, Option<Seq<char>>, Option<u64>)>, Option<Seq<char>>>;

/// What decoding came to, by its texts; nothing stands for an expired token.
pub open spec fn decoded_view(r: Result<Vec<TokenField>, TokenFailure>) -> Result<
    Seq<(Seq<char>, Option<Seq<char>>, Option<u64>)>,
    Option<Seq<char>>,
> {
    match r {
        Ok(fields) => Ok(fields_view(fields@)),
        Err(TokenFailure::Expired) => Err(None),
        Err(TokenFailure::Invalid(why)) => Err(Some(why@)),
    }
}

/// Whether decoding gives back what was signed: of a token that the same secret
/// signed, the fields come back, and if it is validated they do until it
/// expires; it counts as expired from then on.
pub open spec fn reads_back(
    secret: Seq<u8>,
    token: Seq<char>,
    leeway: u64,
    at: Option<u64>,
    decoded: Result<Seq<(Seq<char>, Option<Seq<char>>, Option<u64>)>, Option<Seq<char>>>,
) -> bool {
    forall|fields: Seq<(Seq<char>, Option<Seq<char>>, Option<u64>)>|
        readable_fields(fields) && (#[trigger] signed_token(secret, fields)) == Ok::<
            Seq<char>,
            Seq<char>,
        >(token) ==> if at is None || number_field(fields, "exp"@)->0 + leeway >= at->0 {
            decoded is Ok && decoded->Ok_0.to_set() == fields.to_set()
        } else {
            decoded == Err::<
                Seq<(Seq<char>, Option<Seq<char>>, Option<u64>)>,
                Option<Seq<char>>,
            >(None)
        }
}

/// Calls `jsonwebtoken::decode` for HS256, with no claim required; `validate`
/// says whether expiry, with the given leeway, and audience are validated. What
/// comes out is a function of the token, the secret, the leeway and, if it is
/// validated, what the clock reads meanwhile. Of a token that the same secret
/// signed, it claims that the fields come back as they went in, if validated as
/// long as the expiry, with the leeway, is not past, and that the token counts
/// as expired from then on. Left unsaid is what the clock reads, and what
/// becomes of a token that the secret did not sign: that none passes rests on
/// the strength of the signature.
#[verifier::external_body]
fn decode_token(token: &str, secret: &[u8], leeway: u64, validate: bool) -> (r: Result<
    Vec<TokenField>,
    TokenFailure,
>)
    requires
        leeway == 0,
    ensures
        !validate ==> decoded_view(r) == decoded_token(secret@, token@, leeway, None)
            && reads_back(secret@, token@, leeway, None, decoded_view(r)),
        validate ==> exists|now: u64|
            decoded_view(r) == (#[trigger] decoded_token(secret@, token@, leeway, Some(now)))
                && reads_back(secret@, token@, leeway, Some(now), decoded_view(r)),
{
    let mut validation = jsonwebtoken::Validation::default();
    validation.leeway = leeway;
    validation.validate_exp = validate;
    validation.validate_aud = validate;
    validation.required_spec_claims.clear();
    let key = jsonwebtoken::DecodingKey::from_secret(secret);
    match jsonwebtoken::decode::<serde_json::Map<String, serde_json::Value>>(token, &key, &validation) {
        Ok(data) => Ok(data.claims.into_iter().map(
            |(name, v)| TokenField { name, text: v.as_str().map(str::to_owned), number: v.as_u64() },
        ).collect()),
        Err(e) => match e.kind() {
            jsonwebtoken::errors::ErrorKind::ExpiredSignature => Err(TokenFailure::Expired),
            _ => Err(TokenFailure::Invalid(e.to_string())),
        },
    }
}

// ---------------------------------------------------------------------------
// Claims in a token
// ---------------------------------------------------------------------------

/// The fields of a token with the given claims.
pub open spec fn claim_fields(vm_id: Seq<char>, port: u16, proto: Proto, iat: u64, exp: u64) -> Seq<
    (Seq<char>, Option<Seq<char>>, Option<u64>),
> {
    seq![
        ("vm_id"@, Some(vm_id), None),
        ("port"@, None, Some(port as u64)),
        ("proto"@, Some(proto_name(proto)), None),
        ("iat"@, None, Some(iat)),
        ("exp"@, None, Some(exp)),
    ]
}

/// The token with the given claims under a secret; the reason if there is none.
pub open spec fn claim_token(
    secret: Seq<u8>,
    vm_id: Seq<char>,
    port: u16,
    proto: Proto,
    iat: u64,
    exp: u64,
) -> Result<Seq<char>, Seq<char>> {
    signed_token(secret, claim_fields(vm_id, port, proto, iat, exp))
}

/// The index of the first field called `name`; the length if there is none.
pub open spec fn field_index(
    fields: Seq<(Seq<char>, Option<Seq<char>>, Option<u64>)>,
    name: Seq<char>,
) -> nat
    decreases fields.len(),
{
    if fields.len() == 0 || fields[0].0 == name {
        0
    } else {
        1 + field_index(fields.drop_first(), name)
    }
}

/// The text of the field called `name`.
pub open spec fn text_field(
    fields: Seq<(Seq<char>, Option<Seq<char>>, Option<u64>)>,
    name: Seq<char>,
) -> Option<Seq<char>> {
    let i = field_index(fields, name) as int;
    if i < fields.len() {
        fields[i].1
    } else {
        None
    }
}

/// The number of the field called `name`.
pub open spec fn number_field(
    fields: Seq<(Seq<char>, Option<Seq<char>>, Option<u64>)>,
    name: Seq<char>,
) -> Option<u64> {
    let i = field_index(fields, name) as int;
    if i < fields.len() {
        fields[i].2
    } else {
        None
    }
}

/// Whether `name` names a forwarding mode.
pub open spec fn is_proto_name(name: Seq<char>) -> bool {
    exists|p: Proto| proto_name(p) == name
}

/// The first claim, in the order of [`Claims`], that the fields do not hold:
/// it is missing, of another kind, no port number or no forwarding mode.
pub open spec fn lacking_claim(
    fields: Seq<(Seq<char>, Option<Seq<char>>, Option<u64>)>,
) -> Option<Seq<char>> {
    if text_field(fields, "vm_id"@) is None {
        Some("vm_id"@)
    } else if number_field(fields, "port"@) is None || number_field(fields, "port"@)->0
        > u16::MAX {
        Some("port"@)
    } else if text_field(fields, "proto"@) is None || !is_proto_name(
        text_field(fields, "proto"@)->0,
    ) {
        Some("proto"@)
    } else if number_field(fields, "iat"@) is None {
        Some("iat"@)
    } else if number_field(fields, "exp"@) is None {
        Some("exp"@)
    } else {
        None
    }
}

/// Whether `c` is what the fields say.
pub open spec fn claims_match(
    fields: Seq<(Seq<char>, Option<Seq<char>>, Option<u64>)>,
    c: Claims,
) -> bool {
    &&& text_field(fields, "vm_id"@) == Some(c.vm_id@)
    &&& number_field(fields, "port"@) == Some(c.port as u64)
    &&& text_field(fields, "proto"@) == Some(proto_name(c.proto))
    &&& number_field(fields, "iat"@) == Some(c.iat)
    &&& number_field(fields, "exp"@) == Some(c.exp)
}

/// Finds the first field called `name`.
fn find_field<'a>(fields: &'a [TokenField], name: &str) -> (found: Option<&'a TokenField>)
    ensures
        ({
            let fv = fields_view(fields@);
            let i = field_index(fv, name@) as int;
            match found {
                Some(f) => i < fv.len() && field_view(*f) == fv[i],
                None => i >= fv.len(),
            }
        }),
{
    let ghost fv = fields_view(fields@);
    let mut i: usize = 0;
    proof {
        assert(fv.skip(0) =~= fv);
    }
    while i < fields.len()
        invariant
            fv == fields_view(fields@),
            i <= fields@.len(),
            field_index(fv, name@) == i + field_index(fv.skip(i as int), name@),
        decreases fields@.len() - i,
    {
        proof {
            assert(fv.skip(i as int)[0] == field_view(fields@[i as int]));
            assert(fv.skip(i as int).drop_first() =~= fv.skip(i as int + 1));
        }
        if text::str_eq(&fields[i].name, name) {
            return Some(&fields[i]);
        }
        i += 1;
    }
    None
}

/// The text of the field called `name`.
fn find_text(fields: &[TokenField], name: &str) -> (found: Option<String>)
    ensures
        text::opt_view(found) == text_field(fields_view(fields@), name@),
{
    match find_field(fields, name) {
        Some(f) => match &f.text {
            Some(t) => Some(t.clone()),
            None => None,
        },
        None => None,
    }
}

/// The number of the field called `name`.
fn find_number(fields: &[TokenField], name: &str) -> (found: Option<u64>)
    ensures
        found == number_field(fields_view(fields@), name@),
{
    match find_field(fields, name) {
        Some(f) => f.number,
        None => None,
    }
}

/// Reads the claims out of a token's fields; the name of the first one lacking
/// if they do not hold them all.
pub fn read_claims(fields: &[TokenField]) -> (r: Result<Claims, &'static str>)
    ensures
        match r {
            Ok(c) => lacking_claim(fields_view(fields@)) is None && claims_match(
                fields_view(fields@),
                c,
            ),
            Err(name) => lacking_claim(fields_view(fields@)) == Some(name@),
        },
{
    let vm_id = match find_text(fields, "vm_id") {
        Some(v) => v,
        None => {
            return Err("vm_id");
        },
    };
    let port: u16 = match find_number(fields, "port") {
        Some(p) if p <= 65535 => p as u16,
        _ => {
            return Err("port");
        },
    };
    let proto = match find_text(fields, "proto") {
        Some(name) => match Proto::parse(&name) {
            Some(p) => p,
            None => {
                return Err("proto");
            },
        },
        None => {
            return Err("proto");
        },
    };
    let iat: u64 = match find_number(fields, "iat") {
        Some(t) => t,
        None => {
            return Err("iat");
        },
    };
    let exp: u64 = match find_number(fields, "exp") {
        Some(t) => t,
        None => {
            return Err("exp");
        },
    };
    Ok(Claims { vm_id, port, proto, iat, exp })
}

/// What a token is answered, by what reading it and validating it came to: its
/// claims, or why it was refused. Claims that are lacking come before an expiry
/// that is past.
pub open spec fn token_answer(
    read: Result<Seq<(Seq<char>, Option<Seq<char>>, Option<u64>)>, Option<Seq<char>>>,
    validated: Result<Seq<(Seq<char>, Option<Seq<char>>, Option<u64>)>, Option<Seq<char>>>,
    r: Result<Claims, Error>,
) -> bool {
    match read {
        Err(failure) => refused_with(failure, r),
        Ok(fields) => match lacking_claim(fields) {
            Some(name) => r matches Err(Error::ProxyToken(m)) && m@
                == "invalid token: JSON error: missing or invalid field `"@ + name + "`"@,
            None => match validated {
                Err(failure) => refused_with(failure, r),
                Ok(_) => r matches Ok(c) && claims_match(fields, c),
            },
        },
    }
}

/// What a token that is not accepted is answered; nothing stands for an expired
/// one.
pub open spec fn refused_with(failure: Option<Seq<char>>, r: Result<Claims, Error>) -> bool {
    match failure {
        None => r matches Err(Error::ProxyToken(m)) && m@ == "token expired"@,
        Some(why) => r matches Err(Error::ProxyToken(m)) && m@ == "invalid token: "@ + why,
    }
}

/// Why a token was refused, as an error.
fn refusal(failure: TokenFailure) -> (e: Error)
    ensures
        refused_with(
            match failure {
                TokenFailure::Expired => None,
                TokenFailure::Invalid(why) => Some(why@),
            },
            Err(e),
        ),
{
    match failure {
        TokenFailure::Expired => Error::ProxyToken("token expired".to_owned()),
        TokenFailure::Invalid(why) => Error::ProxyToken(text::cat2("invalid token: ", &why)),
    }
}

/// What a token is answered, by what reading it and validating it came to: its
/// claims, or why it was refused.
pub fn accept_token(
    read: Result<Vec<TokenField>, TokenFailure>,
    validated: Result<Vec<TokenField>, TokenFailure>,
) -> (r: Result<Claims, Error>)
    ensures
        token_answer(decoded_view(read), decoded_view(validated), r),
{
    let fields = match read {
        Err(failure) => {
            return Err(refusal(failure));
        },
        Ok(fields) => fields,
    };
    match read_claims(&fields) {
        Err(name) => Err(
            Error::ProxyToken(
                text::cat3("invalid token: JSON error: missing or invalid field `", name, "`"),
            ),
        ),
        Ok(c) => match validated {
            Err(failure) => Err(refusal(failure)),
            Ok(_) => Ok(c),
        },
    }
}

/// Claims can be signed and read back.
proof fn lemma_claim_fields_readable(
    vm_id: Seq<char>,
    port: u16,
    proto: Proto,
    iat: u64,
    exp: u64,
)
    ensures
        readable_fields(claim_fields(vm_id, port, proto, iat, exp)),
{
    lemma_claim_names();
    let fields = claim_fields(vm_id, port, proto, iat, exp);
    assert(fields[4].0 == "exp"@);
}

/// The names of the claims differ from one another and from `aud`.
proof fn lemma_claim_names()
    ensures
        "vm_id"@ != "port"@,
        "vm_id"@ != "proto"@,
        "vm_id"@ != "iat"@,
        "vm_id"@ != "exp"@,
        "vm_id"@ != "aud"@,
        "port"@ != "proto"@,
        "port"@ != "iat"@,
        "port"@ != "exp"@,
        "port"@ != "aud"@,
        "proto"@ != "iat"@,
        "proto"@ != "exp"@,
        "proto"@ != "aud"@,
        "iat"@ != "exp"@,
        "iat"@ != "aud"@,
        "exp"@ != "aud"@,
{
    reveal_strlit("vm_id");
    reveal_strlit("port");
    reveal_strlit("proto");
    reveal_strlit("iat");
    reveal_strlit("exp");
    reveal_strlit("aud");
    assert("vm_id"@[0] == 'v');
    assert("port"@.len() == 4);
    assert("proto"@[0] == 'p');
    assert("iat"@[0] == 'i');
    assert("exp"@[0] == 'e');
    assert("aud"@[0] == 'a');
}

/// A field that is in a sequence without repeated names is found by its name.
proof fn lemma_field_found(
    fields: Seq<(Seq<char>, Option<Seq<char>>, Option<u64>)>,
    f: (Seq<char>, Option<Seq<char>>, Option<u64>),
)
    requires
        fields.contains(f),
        forall|g: (Seq<char>, Option<Seq<char>>, Option<u64>)|
            fields.contains(g) && g.0 == f.0 ==> g == f,
    ensures
        field_index(fields, f.0) < fields.len(),
        fields[field_index(fields, f.0) as int] == f,
    decreases fields.len(),
{
    if fields[0].0 == f.0 {
        assert(fields.contains(fields[0]));
    } else {
        let rest = fields.drop_first();
        let i = choose|i: int| 0 <= i < fields.len() && fields[i] == f;
        assert(rest[i - 1] == f);
        assert forall|g: (Seq<char>, Option<Seq<char>>, Option<u64>)|
            rest.contains(g) && g.0 == f.0 implies g == f by {
            let j = choose|j: int| 0 <= j < rest.len() && rest[j] == g;
            assert(fields[j + 1] == g);
            assert(fields.contains(g));
        }
        lemma_field_found(rest, f);
    }
}

/// Fields with the same content as a token's claims hold those claims.
proof fn lemma_claims_found(
    fields: Seq<(Seq<char>, Option<Seq<char>>, Option<u64>)>,
    vm_id: Seq<char>,
    port: u16,
    proto: Proto,
    iat: u64,
    exp: u64,
)
    requires
        fields.to_set() == claim_fields(vm_id, port, proto, iat, exp).to_set(),
    ensures
        text_field(fields, "vm_id"@) == Some(vm_id),
        number_field(fields, "port"@) == Some(port as u64),
        text_field(fields, "proto"@) == Some(proto_name(proto)),
        number_field(fields, "iat"@) == Some(iat),
        number_field(fields, "exp"@) == Some(exp),
        lacking_claim(fields) is None,
{
    let sent = claim_fields(vm_id, port, proto, iat, exp);
    lemma_claim_names();
    assert forall|i: int| 0 <= i < 5 implies field_index(fields, (#[trigger] sent[i]).0)
        < fields.len() && fields[field_index(fields, sent[i].0) as int] == sent[i] by {
        let f = sent[i];
        assert(sent.to_set().contains(f));
        assert(fields.to_set().contains(f));
        assert forall|g: (Seq<char>, Option<Seq<char>>, Option<u64>)|
            fields.contains(g) && g.0 == f.0 implies g == f by {
            assert(fields.to_set().contains(g));
            assert(sent.to_set().contains(g));
            let j = choose|j: int| 0 <= j < sent.len() && sent[j] == g;
            assert(sent[j].0 == sent[i].0);
        }
        lemma_field_found(fields, f);
    }
    assert(sent[0].0 == "vm_id"@);
    assert(sent[1].0 == "port"@);
    assert(sent[2].0 == "proto"@);
    assert(sent[3].0 == "iat"@);
    assert(sent[4].0 == "exp"@);
    assert(is_proto_name(proto_name(proto)));
}

// ---------------------------------------------------------------------------
// Minting and verifying
// ---------------------------------------------------------------------------

/// The lifetime granted for a requested one: between a second and a day.
pub open spec fn granted_ttl(ttl_secs: u64) -> u64 {
    if ttl_secs < 1 {
        1
    } else if ttl_secs > MAX_TTL_SECS {
        MAX_TTL_SECS
    } else {
        ttl_secs
    }
}

/// Whether `token` and its expiry are what minting at `now` gives, the times
/// in milliseconds since the Unix epoch.
pub open spec fn minted(
    secret: Seq<u8>,
    vm_id: Seq<char>,
    port: u16,
    proto: Proto,
    ttl_secs: u64,
    now: u64,
    token: Seq<char>,
    expires_at: u64,
) -> bool {
    &&& expires_at == now + granted_ttl(ttl_secs) * 1000
    &&& claim_token(secret, vm_id, port, proto, now / 1000, expires_at / 1000) == Ok::<
        Seq<char>,
        Seq<char>,
    >(token)
}

/// Whether minting at `now` fails, and for the reason `why`.
pub open spec fn unminted(
    secret: Seq<u8>,
    vm_id: Seq<char>,
    port: u16,
    proto: Proto,
    ttl_secs: u64,
    now: u64,
    why: Seq<char>,
) -> bool {
    let expires_at = (now + granted_ttl(ttl_secs) * 1000) as u64;
    claim_token(secret, vm_id, port, proto, now / 1000, expires_at / 1000) == Err::<
        Seq<char>,
        Seq<char>,
    >(why)
}

/// A minted token expires later than it was issued, and no more than a day
/// later.
pub proof fn law_minted_lifetime_bounded(
    secret: Seq<u8>,
    vm_id: Seq<char>,
    port: u16,
    proto: Proto,
    ttl_secs: u64,
    now: u64,
    token: Seq<char>,
    expires_at: u64,
)
    requires
        minted(secret, vm_id, port, proto, ttl_secs, now, token, expires_at),
    ensures
        now / 1000 < expires_at / 1000 <= now / 1000 + MAX_TTL_SECS,
{
}

/// Mints and verifies proxy tokens against a per-boot secret.
pub struct ProxyTokens {
    pub secret: Vec<u8>,
}

/// Calls `rand::Rng::random` for an array of 32 bytes. Nothing is claimed of
/// them beyond their number.
#[verifier::external_body]
fn random_secret() -> (secret: Vec<u8>)
    ensures
        secret@.len() == 32,
{
    let secret: [u8; 32] = rand::Rng::random(&mut rand::rng());
    secret.to_vec()
}

impl ProxyTokens {
    /// A minter with a fresh secret.
    pub fn new() -> (t: Self)
        ensures
            t.secret@.len() == 32,
    {
        ProxyTokens { secret: random_secret() }
    }

    /// Mints a token for one port of one VM, valid for `ttl_secs` (clamped to
    /// between a second and a day) from now. Returns the token and its expiry
    /// in milliseconds since the Unix epoch.
    pub fn mint(&self, vm_id: &VmId, port: u16, proto: Proto, ttl_secs: u64) -> (r: Result<
        (String, u64),
        Error,
    >)
        ensures
            match r {
                Ok((token, expires_at)) => exists|now: u64|
                    minted(self.secret@, vm_id.0@, port, proto, ttl_secs, now, token@, expires_at),
                Err(Error::ProxyToken(m)) => exists|now: u64|
                    unminted(self.secret@, vm_id.0@, port, proto, ttl_secs, now, m@),
                Err(_) => false,
            },
    {
        let now: u64 = clock::now_millis();
        self.mint_at(vm_id, port, proto, ttl_secs, now)
    }

    /// Mints a token as of `now`, in milliseconds since the Unix epoch.
    pub fn mint_at(&self, vm_id: &VmId, port: u16, proto: Proto, ttl_secs: u64, now: u64) -> (r:
        Result<(String, u64), Error>)
        requires
            now <= i64::MAX,
        ensures
            match r {
                Ok((token, expires_at)) => minted(
                    self.secret@,
                    vm_id.0@,
                    port,
                    proto,
                    ttl_secs,
                    now,
                    token@,
                    expires_at,
                ),
                Err(Error::ProxyToken(m)) => unminted(
                    self.secret@,
                    vm_id.0@,
                    port,
                    proto,
                    ttl_secs,
                    now,
                    m@,
                ),
                Err(_) => false,
            },
    {
        let ttl: u64 = if ttl_secs < 1 {
            1
        } else if ttl_secs > MAX_TTL_SECS {
            MAX_TTL_SECS
        } else {
            ttl_secs
        };
        let expires_at: u64 = now + ttl * 1000;
        let mut fields: Vec<TokenField> = Vec::new();
        fields.push(
            TokenField { name: "vm_id".to_owned(), text: Some(vm_id.0.clone()), number: None },
        );
        fields.push(
            TokenField { name: "port".to_owned(), text: None, number: Some(port as u64) },
        );
        fields.push(
            TokenField {
                name: "proto".to_owned(),
                text: Some(proto.name().to_owned()),
                number: None,
            },
        );
        fields.push(TokenField { name: "iat".to_owned(), text: None, number: Some(now / 1000) });
        fields.push(
            TokenField { name: "exp".to_owned(), text: None, number: Some(expires_at / 1000) },
        );
        proof {
            assert(fields_view(fields@) =~= claim_fields(
                vm_id.0@,
                port,
                proto,
                now / 1000,
                expires_at / 1000,
            ));
        }
        match encode_token(&fields, &self.secret) {
            Ok(token) => Ok((token, expires_at)),
            Err(why) => Err(Error::ProxyToken(why)),
        }
    }

    /// Verifies a token's signature and expiry, returning its claims. A token
    /// minted with the same secret gives back what it was minted for, until it
    /// has expired.
    pub fn verify(&self, token: &str) -> (r: Result<Claims, Error>)
        ensures
            exists|now: u64| #[trigger] verified_at(self.secret@, token@, now, r),
    {
        // No expiry leeway: proxy tokens are meant to be short-lived.
        let read = decode_token(token, &self.secret, 0, false);
        let validated = decode_token(token, &self.secret, 0, true);
        let ghost rv = decoded_view(read);
        let ghost dv = decoded_view(validated);
        let ghost now = choose|now: u64|
            dv == (#[trigger] decoded_token(self.secret@, token@, 0, Some(now))) && reads_back(
                self.secret@,
                token@,
                0,
                Some(now),
                dv,
            );
        let r = accept_token(read, validated);
        proof {
            assert forall|vm_id: Seq<char>, port: u16, proto: Proto, iat: u64, exp: u64|
                (#[trigger] claim_token(self.secret@, vm_id, port, proto, iat, exp)) == Ok::<
                    Seq<char>,
                    Seq<char>,
                >(token@) implies claims_until_expiry(vm_id, port, proto, iat, exp, now, r) by {
                let sent = claim_fields(vm_id, port, proto, iat, exp);
                lemma_claim_fields_readable(vm_id, port, proto, iat, exp);
                lemma_claims_found(sent, vm_id, port, proto, iat, exp);
                lemma_claims_found(rv->Ok_0, vm_id, port, proto, iat, exp);
                lemma_proto_names_differ();
            }
            assert(verified_at(self.secret@, token@, now, r));
        }
        r
    }
}

/// Whether a token with the given claims was answered as it is to be at `now`,
/// in seconds since the Unix epoch: by its claims until it has expired, with no
/// leeway, and by a refusal from then on.
pub open spec fn claims_until_expiry(
    vm_id: Seq<char>,
    port: u16,
    proto: Proto,
    iat: u64,
    exp: u64,
    now: u64,
    r: Result<Claims, Error>,
) -> bool {
    if exp >= now {
        r matches Ok(c) && c.vm_id@ == vm_id && c.port == port && c.proto == proto && c.iat == iat
            && c.exp == exp
    } else {
        r matches Err(Error::ProxyToken(m)) && m@ == "token expired"@
    }
}

/// Whether `r` is what verifying a token comes to when the clock stands at
/// `now`, in seconds since the Unix epoch.
pub open spec fn verified_at(
    secret: Seq<u8>,
    token: Seq<char>,
    now: u64,
    r: Result<Claims, Error>,
) -> bool {
    &&& token_answer(
        decoded_token(secret, token, 0, None),
        decoded_token(secret, token, 0, Some(now)),
        r,
    )
    &&& forall|vm_id: Seq<char>, port: u16, proto: Proto, iat: u64, exp: u64|
        (#[trigger] claim_token(secret, vm_id, port, proto, iat, exp)) == Ok::<
            Seq<char>,
            Seq<char>,
        >(token) ==> claims_until_expiry(vm_id, port, proto, iat, exp, now, r)
}

/// A minted token verifies under the same secret to what it was minted for, up
/// to the second it expires in, and is refused as expired from the next second
/// on.
pub proof fn law_minted_token_verifies_until_expiry(
    secret: Seq<u8>,
    vm_id: Seq<char>,
    port: u16,
    proto: Proto,
    ttl_secs: u64,
    minted_at: u64,
    token: Seq<char>,
    expires_at: u64,
    now: u64,
    r: Result<Claims, Error>,
)
    requires
        minted(secret, vm_id, port, proto, ttl_secs, minted_at, token, expires_at),
        verified_at(secret, token, now, r),
    ensures
        now <= expires_at / 1000 ==> (r matches Ok(c) && c.vm_id@ == vm_id && c.port == port
            && c.proto == proto && c.iat == minted_at / 1000 && c.exp == c.iat + granted_ttl(
            ttl_secs,
        )),
        now > expires_at / 1000 ==> (r matches Err(Error::ProxyToken(m)) && m@
            == "token expired"@),
{
    assert(claims_until_expiry(
        vm_id,
        port,
        proto,
        minted_at / 1000,
        expires_at / 1000,
        now,
        r,
    ));
}

/// Different forwarding modes have different names.
proof fn lemma_proto_names_differ()
    ensures
        forall|p: Proto, q: Proto| #[trigger]
            proto_name(p) == #[trigger] proto_name(q) ==> p == q,
{
    reveal_strlit("http");
    reveal_strlit("tcp");
    assert("http"@.len() == 4);
    assert("tcp"@.len() == 3);
}

} // verus!
