//! TCP mode of the proxy, for the Postgres wire protocol.
//!
//! Only the startup phase is handled here: encryption requests are refused,
//! the proxy token is taken out of the startup message, and the rewritten
//! message goes on to the guest. Failures are reported as a Postgres
//! `ErrorResponse`, so that a client prints a clean server error.

use vstd::prelude::*;
use vstd::utf8::*;

use crate::bytes;
use crate::error::Error;
use crate::proxy::options::{extract_from_options, TOKEN_PARAM};
use crate::proxy::token::{Claims, Proto, ProxyTokens};
use crate::text;

verus! {

/// Protocol 3.0, the only version the guest images speak.
pub const PROTOCOL_V3: u32 = 196608;

/// The client asks for TLS.
pub const SSL_REQUEST: u32 = 80877103;

/// The client asks for GSSAPI encryption.
pub const GSSENC_REQUEST: u32 = 80877104;

/// The client asks to cancel a query of another connection.
pub const CANCEL_REQUEST: u32 = 80877102;

/// Largest first frame accepted: a startup message carrying a token is well
/// under 1 KiB; anything bigger is not a Postgres startup.
pub const MAX_STARTUP_FRAME: usize = 16384;

/// Whether a startup frame may announce this length (which counts itself).
pub open spec fn plausible_frame_len(len: nat) -> bool {
    8 <= len <= MAX_STARTUP_FRAME
}

/// Whether `code` is one that a Postgres client opens a connection with.
pub open spec fn startup_code(code: nat) -> bool {
    code == PROTOCOL_V3 || code == SSL_REQUEST || code == GSSENC_REQUEST || code == CANCEL_REQUEST
}

/// The code of a startup frame: the four bytes behind its length.
pub open spec fn frame_code(frame: Seq<u8>) -> nat {
    bytes::be32_value(frame.subrange(4, 8))
}

/// Decides from the first bytes of a connection whether it speaks the
/// Postgres wire protocol: the frame length must be plausible and the code
/// one of the known startup codes.
pub fn looks_like_postgres(prefix: &[u8]) -> (b: bool)
    ensures
        b == (prefix@.len() >= 8 && plausible_frame_len(
            bytes::be32_value(prefix@.subrange(0, 4)),
        ) && startup_code(frame_code(prefix@))),
{
    if prefix.len() < 8 {
        return false;
    }
    let len: u32 = bytes::read_be32(prefix, 0);
    if len < 8 || len > MAX_STARTUP_FRAME as u32 {
        return false;
    }
    let code: u32 = bytes::read_be32(prefix, 4);
    code == PROTOCOL_V3 || code == SSL_REQUEST || code == GSSENC_REQUEST || code == CANCEL_REQUEST
}

/// The length of the frame that the first four bytes announce, counting
/// those four; an error text if no startup frame is that long.
pub fn frame_len(len_buf: &[u8]) -> (r: Result<usize, String>)
    requires
        len_buf@.len() >= 4,
    ensures
        ({
            let len = bytes::be32_value(len_buf@.subrange(0, 4));
            match r {
                Ok(n) => n == len && plausible_frame_len(len),
                Err(m) => !plausible_frame_len(len) && m@ == "implausible startup frame length "@
                    + text::decimal(len),
            }
        }),
{
    let len: u32 = bytes::read_be32(len_buf, 0);
    if len < 8 || len > MAX_STARTUP_FRAME as u32 {
        return Err(
            text::cat2("implausible startup frame length ", &text::decimal_string(len as u64)),
        );
    }
    Ok(len as usize)
}

// ---------------------------------------------------------------------------
// Startup messages
// ---------------------------------------------------------------------------

/// The texts of startup parameters.
pub open spec fn params_view(params: Seq<(String, String)>) -> Seq<(Seq<char>, Seq<char>)> {
    params.map_values(|p: (String, String)| (p.0@, p.1@))
}

/// The parameters encoded in `rest`: NUL-terminated keys and values in turn,
/// closed by an empty key. `None` if a terminator is missing.
pub open spec fn decode_params(rest: Seq<u8>) -> Option<Seq<(Seq<char>, Seq<char>)>>
    decreases rest.len(),
{
    let n = bytes::index_of(rest, 0) as int;
    if n >= rest.len() {
        None
    } else if n == 0 {
        Some(seq![])
    } else {
        let tail = rest.skip(n + 1);
        let m = bytes::index_of(tail, 0) as int;
        if m >= tail.len() {
            None
        } else {
            match decode_params(tail.skip(m + 1)) {
                None => None,
                Some(params) => Some(
                    seq![(text::utf8_lossy(rest.take(n)), text::utf8_lossy(tail.take(m)))] + params,
                ),
            }
        }
    }
}

/// The parameters of a startup message: what follows length and version.
pub open spec fn startup_params(frame: Seq<u8>) -> Option<Seq<(Seq<char>, Seq<char>)>> {
    decode_params(frame.skip(8))
}

/// Parses a protocol 3.0 startup message (including its 4-byte length) into
/// its key/value parameters.
pub fn parse_startup(frame: &[u8]) -> (params: Option<Vec<(String, String)>>)
    requires
        frame@.len() >= 8,
    ensures
        match params {
            Some(p) => startup_params(frame@) == Some(params_view(p@)),
            None => startup_params(frame@) is None,
        },
{
    let mut params: Vec<(String, String)> = Vec::new();
    let mut at: usize = 8;
    proof {
        if let Some(ps) = startup_params(frame@) {
            assert(params_view(params@) + ps =~= ps);
        }
    }
    while at < frame.len()
        invariant
            8 <= at <= frame@.len(),
            startup_params(frame@) == (match decode_params(frame@.skip(at as int)) {
                None => None,
                Some(ps) => Some(params_view(params@) + ps),
            }),
        decreases frame@.len() - at,
    {
        let ghost rest = frame@.skip(at as int);
        let key_end = match bytes::find_byte(frame, at, 0) {
            Some(i) => i,
            None => {
                return None;
            },
        };
        if key_end == at {
            proof {
                assert(params_view(params@) + seq![] =~= params_view(params@));
            }
            return Some(params);
        }
        let ghost tail = rest.skip(key_end - at + 1);
        proof {
            assert(tail =~= frame@.skip(key_end as int + 1));
        }
        let value_end = match bytes::find_byte(frame, key_end + 1, 0) {
            Some(i) => i,
            None => {
                return None;
            },
        };
        let ghost before = params@;
        let key = text::from_utf8_lossy(&frame[at..key_end]);
        let value = text::from_utf8_lossy(&frame[key_end + 1..value_end]);
        params.push((key, value));
        proof {
            let n = key_end - at;
            let m = value_end - key_end - 1;
            assert(rest.take(n) =~= frame@.subrange(at as int, key_end as int));
            assert(tail.take(m) =~= frame@.subrange(key_end as int + 1, value_end as int));
            assert(tail.skip(m + 1) =~= frame@.skip(value_end as int + 1));
            let item = (text::utf8_lossy(rest.take(n)), text::utf8_lossy(tail.take(m)));
            assert(params_view(params@) =~= params_view(before).push(item));
            if let Some(ps) = decode_params(tail.skip(m + 1)) {
                assert(params_view(before) + (seq![item] + ps) =~= params_view(params@) + ps);
            }
        }
        at = value_end + 1;
    }
    None
}

/// Parameters as they stand in a startup message, without the terminator.
pub open spec fn encode_params(params: Seq<(Seq<char>, Seq<char>)>) -> Seq<u8>
    decreases params.len(),
{
    if params.len() == 0 {
        seq![]
    } else {
        encode_params(params.drop_last()) + encode_utf8(params.last().0).push(0) + encode_utf8(
            params.last().1,
        ).push(0)
    }
}

/// Everything in a startup message behind its length.
pub open spec fn startup_body(params: Seq<(Seq<char>, Seq<char>)>) -> Seq<u8> {
    bytes::be32(PROTOCOL_V3 as nat) + encode_params(params) + seq![0u8]
}

/// The startup message with the given parameters.
pub open spec fn startup_frame(params: Seq<(Seq<char>, Seq<char>)>) -> Seq<u8> {
    bytes::be32((startup_body(params).len() + 4) as nat) + startup_body(params)
}

/// Serializes startup parameters into a protocol 3.0 startup message with a
/// recomputed length.
pub fn build_startup(params: &[(String, String)]) -> (frame: Vec<u8>)
    requires
        startup_frame(params_view(params@)).len() <= usize::MAX,
    ensures
        frame@ == startup_frame(params_view(params@)),
{
    let mut body: Vec<u8> = Vec::new();
    bytes::push_be32(&mut body, PROTOCOL_V3 as usize);
    let ghost pv = params_view(params@);
    let ghost head = bytes::be32(PROTOCOL_V3 as nat);
    let mut i: usize = 0;
    proof {
        assert(pv.take(0) =~= seq![]);
        assert(body@ =~= head + encode_params(pv.take(0)));
    }
    while i < params.len()
        invariant
            pv == params_view(params@),
            head == bytes::be32(PROTOCOL_V3 as nat),
            i <= params@.len(),
            body@ == head + encode_params(pv.take(i as int)),
        decreases params@.len() - i,
    {
        let ghost before = body@;
        let key = params[i].0.as_str().as_bytes();
        let value = params[i].1.as_str().as_bytes();
        body.extend_from_slice(key);
        body.push(0);
        body.extend_from_slice(value);
        body.push(0);
        proof {
            let next = pv.take(i as int + 1);
            assert(next.drop_last() =~= pv.take(i as int));
            assert(next.last() == pv[i as int]);
            assert(pv[i as int] == (params@[i as int].0@, params@[i as int].1@));
            assert(body@ =~= before + key@.push(0) + value@.push(0));
            assert(body@ =~= head + encode_params(next));
        }
        i += 1;
    }
    body.push(0);
    proof {
        assert(pv.take(i as int) =~= pv);
        assert(body@ =~= startup_body(pv));
    }
    let mut frame: Vec<u8> = Vec::new();
    bytes::push_be32(&mut frame, body.len() + 4);
    frame.extend_from_slice(&body);
    proof {
        assert(frame@ =~= startup_frame(pv));
    }
    frame
}

/// Whether a text can stand in a startup message: it holds no NUL.
pub open spec fn nul_free(s: Seq<char>) -> bool {
    forall|i: int| 0 <= i < s.len() ==> s[i] != '\0'
}

/// Whether parameters can stand in a startup message: no text holds a NUL,
/// which ends it, and no key is empty, which ends the message.
pub open spec fn encodable(params: Seq<(Seq<char>, Seq<char>)>) -> bool {
    forall|i: int|
        0 <= i < params.len() ==> (#[trigger] params[i]).0.len() > 0 && nul_free(params[i].0)
            && nul_free(params[i].1)
}

/// Only the NUL character has a zero byte in its encoding.
proof fn lemma_scalar_nonzero(v: u32)
    requires
        v != 0,
    ensures
        forall|i: int| 0 <= i < encode_scalar(v).len() ==> encode_scalar(v)[i] != 0,
        encode_scalar(v).len() > 0,
{
    if has_width_1_encoding(v) {
        assert(leading_byte_width_1(v) != 0) by (bit_vector)
            requires
                0 < v <= 0x7F,
        ;
    } else {
        assert(leading_byte_width_2(v) != 0) by (bit_vector);
        assert(leading_byte_width_3(v) != 0) by (bit_vector);
        assert(leading_byte_width_4(v) != 0) by (bit_vector);
        assert(last_continuation_byte(v) != 0) by (bit_vector);
        assert(second_last_continuation_byte(v) != 0) by (bit_vector);
        assert(third_last_continuation_byte(v) != 0) by (bit_vector);
    }
}

/// The code of a character is its number.
proof fn lemma_char_code(c: char)
    ensures
        (c as u32) as int == c as int,
{
}

/// A text without NUL has no zero byte, and bytes unless it is empty.
proof fn lemma_nul_free_bytes(s: Seq<char>)
    requires
        nul_free(s),
    ensures
        forall|i: int| 0 <= i < encode_utf8(s).len() ==> encode_utf8(s)[i] != 0,
        s.len() > 0 ==> encode_utf8(s).len() > 0,
    decreases s.len(),
{
    if s.len() > 0 {
        let c = s[0];
        let v = c as u32;
        lemma_char_code(c);
        lemma_scalar_nonzero(v);
        assert(nul_free(s.drop_first())) by {
            assert forall|i: int| 0 <= i < s.drop_first().len() implies s.drop_first()[i]
                != '\0' by {
                assert(s.drop_first()[i] == s[i + 1]);
            }
        }
        lemma_nul_free_bytes(s.drop_first());
        let tail = encode_utf8(s.drop_first());
        assert forall|i: int| 0 <= i < encode_utf8(s).len() implies encode_utf8(s)[i] != 0 by {
            let n = encode_scalar(v).len();
            if i < n {
                assert(encode_utf8(s)[i] == encode_scalar(v)[i]);
            } else {
                assert(encode_utf8(s)[i] == tail[i - n]);
            }
        }
    }
}

/// One parameter as it stands in a startup message.
spec fn encode_param(p: (Seq<char>, Seq<char>)) -> Seq<u8> {
    encode_utf8(p.0).push(0) + encode_utf8(p.1).push(0)
}

/// The first parameter stands first.
proof fn lemma_encode_params_front(params: Seq<(Seq<char>, Seq<char>)>)
    requires
        params.len() > 0,
    ensures
        encode_params(params) == encode_param(params[0]) + encode_params(params.drop_first()),
    decreases params.len(),
{
    let last = encode_utf8(params.last().0).push(0) + encode_utf8(params.last().1).push(0);
    if params.len() == 1 {
        assert(params.drop_last() =~= seq![]);
        assert(params.drop_first() =~= seq![]);
        assert(encode_params(params) =~= encode_param(params[0]) + encode_params(
            params.drop_first(),
        ));
    } else {
        lemma_encode_params_front(params.drop_last());
        assert(params.drop_last().drop_first() =~= params.drop_first().drop_last());
        assert(encode_params(params) =~= encode_param(params[0]) + encode_params(
            params.drop_first(),
        ));
    }
}

/// Decoding takes off one encoded parameter and goes on behind it.
proof fn lemma_decode_one(p: (Seq<char>, Seq<char>), rest: Seq<u8>)
    requires
        p.0.len() > 0,
        nul_free(p.0),
        nul_free(p.1),
    ensures
        decode_params(encode_param(p) + rest) == (match decode_params(rest) {
            None => None,
            Some(params) => Some(seq![p] + params),
        }),
{
    let coded = encode_param(p) + rest;
    let key = encode_utf8(p.0);
    let value = encode_utf8(p.1);
    let behind = value + seq![0u8] + rest;
    let n = key.len() as int;
    let m = value.len() as int;
    assert(bytes::index_of(coded, 0) == n && n > 0) by {
        lemma_nul_free_bytes(p.0);
        assert(coded =~= key + seq![0u8] + behind);
        bytes::lemma_index_of_after(key, 0, behind);
    }
    assert(coded.take(n) =~= key);
    assert(coded.skip(n + 1) =~= behind);
    assert(bytes::index_of(behind, 0) == m) by {
        lemma_nul_free_bytes(p.1);
        bytes::lemma_index_of_after(value, 0, rest);
    }
    assert(behind.take(m) =~= value);
    assert(behind.skip(m + 1) =~= rest);
    assert(text::utf8_lossy(key) == p.0) by {
        encode_utf8_valid_utf8(p.0);
        encode_utf8_decode_utf8(p.0);
    }
    assert(text::utf8_lossy(value) == p.1) by {
        encode_utf8_valid_utf8(p.1);
        encode_utf8_decode_utf8(p.1);
    }
}

/// Decoding what was encoded gives the parameters back.
proof fn lemma_params_round_trip(params: Seq<(Seq<char>, Seq<char>)>)
    requires
        encodable(params),
    ensures
        decode_params(encode_params(params) + seq![0u8]) == Some(params),
    decreases params.len(),
{
    let coded = encode_params(params) + seq![0u8];
    if params.len() == 0 {
        assert(coded =~= seq![0u8]);
        assert(params =~= seq![]);
    } else {
        let p = params[0];
        let rest = encode_params(params.drop_first()) + seq![0u8];
        assert(coded =~= encode_param(p) + rest) by {
            lemma_encode_params_front(params);
        }
        assert(encodable(params.drop_first())) by {
            assert forall|i: int| 0 <= i < params.drop_first().len() implies (
            #[trigger] params.drop_first()[i]).0.len() > 0 && nul_free(params.drop_first()[i].0)
                && nul_free(params.drop_first()[i].1) by {
                assert(params.drop_first()[i] == params[i + 1]);
            }
        }
        lemma_params_round_trip(params.drop_first());
        lemma_decode_one(p, rest);
        assert(seq![p] + params.drop_first() =~= params);
    }
}

/// Parsing a startup message gives back the parameters it was built from, and
/// the length it announces is its own, if that can be written in four bytes.
pub proof fn law_startup_round_trip(params: Seq<(Seq<char>, Seq<char>)>)
    requires
        encodable(params),
    ensures
        startup_params(startup_frame(params)) == Some(params),
        startup_frame(params).len() < 0x1_0000_0000 ==> bytes::be32_value(
            startup_frame(params).subrange(0, 4),
        ) == startup_frame(params).len(),
        frame_code(startup_frame(params)) == PROTOCOL_V3,
{
    let frame = startup_frame(params);
    let body = startup_body(params);
    if frame.len() < 0x1_0000_0000 {
        bytes::lemma_be32_round_trip((body.len() + 4) as nat);
    }
    bytes::lemma_be32_round_trip(PROTOCOL_V3 as nat);
    assert(frame.subrange(0, 4) =~= bytes::be32((body.len() + 4) as nat));
    assert(frame.subrange(4, 8) =~= bytes::be32(PROTOCOL_V3 as nat));
    assert(frame.skip(8) =~= encode_params(params) + seq![0u8]);
    lemma_params_round_trip(params);
}

// ---------------------------------------------------------------------------
// Error frames
// ---------------------------------------------------------------------------

/// One field of an error frame: its code, its text and a NUL.
pub open spec fn error_field(code: char, value: Seq<char>) -> Seq<u8> {
    seq![code as u8] + encode_utf8(value) + seq![0u8]
}

/// The fields of an error frame: severity twice, SQLSTATE 28000 (invalid
/// authorization specification) and the message.
pub open spec fn error_body(message: Seq<char>) -> Seq<u8> {
    error_field('S', "FATAL"@) + error_field('V', "FATAL"@) + error_field('C', "28000"@)
        + error_field('M', message) + seq![0u8]
}

/// A Postgres `ErrorResponse` frame carrying `message`.
pub open spec fn error_frame(message: Seq<char>) -> Seq<u8> {
    seq![69u8] + bytes::be32((error_body(message).len() + 4) as nat) + error_body(message)
}

/// Appends one field of an error frame.
fn push_error_field(body: &mut Vec<u8>, code: char, value: &str)
    requires
        code as u32 <= 127,
    ensures
        final(body)@ == old(body)@ + error_field(code, value@),
{
    body.push(code as u8);
    body.extend_from_slice(value.as_bytes());
    body.push(0);
    proof {
        assert(body@ =~= old(body)@ + error_field(code, value@));
    }
}

/// Builds a Postgres `ErrorResponse` frame (severity FATAL, SQLSTATE 28000)
/// carrying `message`.
pub fn error_response(message: &str) -> (frame: Vec<u8>)
    requires
        error_frame(message@).len() <= usize::MAX,
    ensures
        frame@ == error_frame(message@),
{
    let mut body: Vec<u8> = Vec::new();
    push_error_field(&mut body, 'S', "FATAL");
    push_error_field(&mut body, 'V', "FATAL");
    push_error_field(&mut body, 'C', "28000");
    push_error_field(&mut body, 'M', message);
    body.push(0);
    proof {
        assert(body@ =~= error_body(message@));
    }
    let mut frame: Vec<u8> = Vec::new();
    frame.push(69);
    bytes::push_be32(&mut frame, body.len() + 4);
    frame.extend_from_slice(&body);
    proof {
        assert(frame@ =~= error_frame(message@));
    }
    frame
}

/// An error frame is well formed: it opens with `E`, announces its own length
/// behind that byte, ends with a NUL and holds the message's bytes.
pub proof fn law_error_frame_well_formed(message: Seq<char>)
    requires
        error_frame(message).len() <= 0x1_0000_0000,
    ensures
        ({
            let frame = error_frame(message);
            let at = frame.len() - 2 - encode_utf8(message).len();
            &&& frame[0] == 69u8
            &&& bytes::be32_value(frame.subrange(1, 5)) == frame.len() - 1
            &&& frame.last() == 0u8
            &&& 0 <= at
            &&& frame.subrange(at, at + encode_utf8(message).len()) == encode_utf8(message)
        }),
{
    let frame = error_frame(message);
    let body = error_body(message);
    bytes::lemma_be32_round_trip((body.len() + 4) as nat);
    assert(frame.subrange(1, 5) =~= bytes::be32((body.len() + 4) as nat));
    let at = frame.len() - 2 - encode_utf8(message).len();
    assert(frame.subrange(at, at + encode_utf8(message).len()) =~= encode_utf8(message));
}

// ---------------------------------------------------------------------------
// The startup phase
// ---------------------------------------------------------------------------

/// The token that a startup parameter carries, standing alone or inside the
/// `options` parameter (the only way for stock clients).
pub open spec fn param_token(p: (Seq<char>, Seq<char>)) -> Option<Seq<char>> {
    if p.0 == TOKEN_PARAM@ {
        Some(p.1)
    } else if p.0 == "options"@ {
        crate::proxy::options::options_token(p.1)
    } else {
        None
    }
}

/// What is left of a startup parameter once its token is stripped; a stock
/// Postgres would reject the unknown parameter or setting.
pub open spec fn param_rest(p: (Seq<char>, Seq<char>)) -> Seq<(Seq<char>, Seq<char>)> {
    if p.0 == TOKEN_PARAM@ {
        seq![]
    } else if param_token(p) is Some {
        let rest = crate::proxy::options::options_rest(p.1);
        if rest.len() == 0 {
            seq![]
        } else {
            seq![(p.0, rest)]
        }
    } else {
        seq![p]
    }
}

/// The token of a startup message: the last one among its parameters.
pub open spec fn message_token(params: Seq<(Seq<char>, Seq<char>)>) -> Option<Seq<char>>
    decreases params.len(),
{
    if params.len() == 0 {
        None
    } else if param_token(params.last()) is Some {
        param_token(params.last())
    } else {
        message_token(params.drop_last())
    }
}

/// The parameters that go on to the guest, in their order.
pub open spec fn forwarded_params(params: Seq<(Seq<char>, Seq<char>)>) -> Seq<
    (Seq<char>, Seq<char>),
>
    decreases params.len(),
{
    if params.len() == 0 {
        seq![]
    } else {
        forwarded_params(params.drop_last()) + param_rest(params.last())
    }
}

/// Separates the token from the parameters that go on to the guest.
pub fn strip_token(params: Vec<(String, String)>) -> (r: (Option<String>, Vec<(String, String)>))
    ensures
        text::opt_view(r.0) == message_token(params_view(params@)),
        params_view(r.1@) == forwarded_params(params_view(params@)),
{
    let ghost pv = params_view(params@);
    let mut token: Option<String> = None;
    let mut forwarded: Vec<(String, String)> = Vec::new();
    let mut i: usize = 0;
    proof {
        assert(pv.take(0) =~= seq![]);
        assert(params_view(forwarded@) =~= seq![]);
    }
    while i < params.len()
        invariant
            pv == params_view(params@),
            i <= params@.len(),
            text::opt_view(token) == message_token(pv.take(i as int)),
            params_view(forwarded@) == forwarded_params(pv.take(i as int)),
        decreases params@.len() - i,
    {
        let key = &params[i].0;
        let value = &params[i].1;
        let ghost before = forwarded@;
        proof {
            assert(pv.take(i as int + 1).drop_last() =~= pv.take(i as int));
            assert(pv.take(i as int + 1).last() == (key@, value@));
        }
        if text::str_eq(key, TOKEN_PARAM) {
            token = Some(value.clone());
            proof {
                assert(params_view(forwarded@) + seq![] =~= params_view(forwarded@));
            }
        } else if text::str_eq(key, "options") {
            let (found, rest) = extract_from_options(value);
            match found {
                Some(t) => {
                    token = Some(t);
                    if !rest.as_str().is_empty() {
                        forwarded.push((key.clone(), rest));
                        proof {
                            assert(params_view(forwarded@) =~= params_view(before) + seq![
                                (key@, rest@),
                            ]);
                        }
                    } else {
                        proof {
                            assert(params_view(forwarded@) + seq![] =~= params_view(forwarded@));
                        }
                    }
                },
                None => {
                    forwarded.push((key.clone(), value.clone()));
                    proof {
                        assert(params_view(forwarded@) =~= params_view(before) + seq![
                            (key@, value@),
                        ]);
                    }
                },
            }
        } else {
            forwarded.push((key.clone(), value.clone()));
            proof {
                assert(params_view(forwarded@) =~= params_view(before) + seq![(key@, value@)]);
            }
        }
        i += 1;
    }
    proof {
        assert(pv.take(i as int) =~= pv);
    }
    (token, forwarded)
}

/// No parameter called after the token goes on to the guest.
pub proof fn law_token_param_never_forwarded(params: Seq<(Seq<char>, Seq<char>)>, i: int)
    requires
        0 <= i < forwarded_params(params).len(),
    ensures
        forwarded_params(params)[i].0 != TOKEN_PARAM@,
    decreases params.len(),
{
    let head = forwarded_params(params.drop_last());
    if i < head.len() {
        law_token_param_never_forwarded(params.drop_last(), i);
    } else {
        assert(forwarded_params(params)[i] == param_rest(params.last())[i - head.len()]);
    }
}

/// No `options` that go on to the guest set the token, if taking it out of the
/// client's forms no setting anew.
pub proof fn law_token_option_never_forwarded(params: Seq<(Seq<char>, Seq<char>)>, i: int)
    requires
        0 <= i < forwarded_params(params).len(),
        forwarded_params(params)[i].0 == "options"@,
        forall|k: int|
            0 <= k < params.len() && (#[trigger] params[k]).0 == "options"@
                ==> !crate::proxy::options::forms_setting(params[k].1),
    ensures
        crate::proxy::options::options_token(forwarded_params(params)[i].1) is None,
    decreases params.len(),
{
    let head = forwarded_params(params.drop_last());
    let last = params[params.len() - 1];
    assert(last == params.last());
    if i < head.len() {
        assert forall|k: int|
            0 <= k < params.drop_last().len() && (#[trigger] params.drop_last()[k]).0
                == "options"@ implies !crate::proxy::options::forms_setting(
            params.drop_last()[k].1,
        ) by {
            assert(params.drop_last()[k] == params[k]);
        }
        law_token_option_never_forwarded(params.drop_last(), i);
    } else {
        assert(forwarded_params(params)[i] == param_rest(last)[i - head.len()]);
        crate::proxy::options::law_rest_sets_no_token(last.1);
    }
}

/// A startup message without a token goes on unchanged.
pub proof fn law_tokenless_params_unchanged(params: Seq<(Seq<char>, Seq<char>)>)
    requires
        message_token(params) is None,
    ensures
        forwarded_params(params) == params,
    decreases params.len(),
{
    if params.len() > 0 {
        law_tokenless_params_unchanged(params.drop_last());
        assert(forwarded_params(params) =~= params);
    } else {
        assert(params =~= seq![]);
    }
}

/// What to do about a startup frame.
pub enum StartupStep {
    /// Answer `N` (no encryption through the proxy) and read the next frame.
    RefuseEncryption,
    /// Verify the token, then forward the rewritten startup message.
    Verify { token: String, forwarded: Vec<(String, String)> },
    /// Report the failure and close the connection.
    Reject(String),
}

/// Answers one frame of the startup phase.
pub fn on_frame(frame: &[u8]) -> (step: StartupStep)
    requires
        frame@.len() >= 8,
    ensures
        ({
            let code = frame_code(frame@);
            if code == SSL_REQUEST || code == GSSENC_REQUEST {
                step is RefuseEncryption
            } else if code == CANCEL_REQUEST {
                step matches StartupStep::Reject(m) && m@
                    == "cancel requests are not supported through the proxy"@
            } else if code != PROTOCOL_V3 {
                step matches StartupStep::Reject(m) && m@ == "unsupported postgres protocol code "@
                    + text::decimal(code)
            } else {
                match startup_params(frame@) {
                    None => step matches StartupStep::Reject(m) && m@
                        == "malformed startup message"@,
                    Some(params) => match message_token(params) {
                        None => step matches StartupStep::Reject(m) && m@
                            == "missing proxy token (pass it as options='-c tikovm_token=<jwt>')"@,
                        Some(t) => step matches StartupStep::Verify { token, forwarded } && token@
                            == t && params_view(forwarded@) == forwarded_params(params),
                    },
                }
            }
        }),
{
    let code: u32 = bytes::read_be32(frame, 4);
    if code == SSL_REQUEST || code == GSSENC_REQUEST {
        // The client retries in plaintext.
        return StartupStep::RefuseEncryption;
    }
    if code == CANCEL_REQUEST {
        // References a backend secret that does not exist behind a proxy.
        return StartupStep::Reject(
            "cancel requests are not supported through the proxy".to_owned(),
        );
    }
    if code != PROTOCOL_V3 {
        return StartupStep::Reject(
            text::cat2(
                "unsupported postgres protocol code ",
                &text::decimal_string(code as u64),
            ),
        );
    }
    match parse_startup(frame) {
        None => StartupStep::Reject("malformed startup message".to_owned()),
        Some(params) => {
            let (token, forwarded) = strip_token(params);
            match token {
                None => StartupStep::Reject(
                    "missing proxy token (pass it as options='-c tikovm_token=<jwt>')".to_owned(),
                ),
                Some(token) => StartupStep::Verify { token, forwarded },
            }
        },
    }
}

/// What a verified token is answered for TCP proxying: its claims, or the text
/// that the client is refused with.
pub open spec fn tcp_answer(verified: Result<Claims, Error>, r: Result<Claims, String>) -> bool {
    match verified {
        Ok(c) => if c.proto == Proto::Tcp {
            r == Ok::<Claims, String>(c)
        } else {
            r matches Err(m) && m@ == "token is not valid for TCP proxying"@
        },
        Err(e) => r matches Err(m) && m@ == crate::error::error_text(e),
    }
}

/// Lets a verified token in for TCP proxying: its claims, or the text that the
/// client is refused with.
pub fn accept_for_tcp(verified: Result<Claims, Error>) -> (r: Result<Claims, String>)
    ensures
        tcp_answer(verified, r),
{
    match verified {
        Ok(c) => if c.proto == Proto::Tcp {
            Ok(c)
        } else {
            Err("token is not valid for TCP proxying".to_owned())
        },
        Err(e) => Err(e.message()),
    }
}

/// Authenticates a connection by the token of its startup packet. The claims
/// name the target; a client that is refused gets the text.
pub fn authenticate_tcp(tokens: &ProxyTokens, token: &str) -> (r: Result<Claims, String>)
    ensures
        exists|now: u64, verified: Result<Claims, Error>| #[trigger]
            crate::proxy::token::verified_at(tokens.secret@, token@, now, verified) && tcp_answer(
                verified,
                r,
            ),
{
    let verified = tokens.verify(token);
    let ghost seen = verified;
    let r = accept_for_tcp(verified);
    proof {
        let now = choose|now: u64| #[trigger]
            crate::proxy::token::verified_at(tokens.secret@, token@, now, seen);
        assert(crate::proxy::token::verified_at(tokens.secret@, token@, now, seen));
    }
    r
}

} // verus!
