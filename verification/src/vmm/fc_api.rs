//! Requests to the API of a Firecracker process, which speaks HTTP over a Unix
//! socket, and what its replies mean. The program moves the bytes.

use vstd::prelude::*;
use vstd::utf8::*;

use crate::error::Error;
use crate::json;
use crate::json::JsonField;
use crate::text;

verus! {

/// The longest reply header that is read.
pub const MAX_HEADER_BYTES: usize = 8192;

/// How often the state of a starting VM is polled.
pub const RUNNING_POLL_MS: u64 = 50;

/// Where a Firecracker process listens.
#[derive(Debug)]
pub struct FcApiClient {
    pub socket_path: String,
}

/// A request as it goes over the socket.
pub open spec fn request_of(method: Seq<char>, path: Seq<char>, body: Seq<char>) -> Seq<char> {
    method + " "@ + path
        + " HTTP/1.1\r\nHost: localhost\r\nContent-Type: application/json\r\nContent-Length: "@
        + text::decimal(encode_utf8(body).len()) + "\r\nConnection: close\r\n\r\n"@ + body
}

impl FcApiClient {
    /// The client of the process that listens on a socket.
    pub fn new(socket_path: &str) -> (c: FcApiClient)
        ensures
            c.socket_path@ == socket_path@,
    {
        FcApiClient { socket_path: socket_path.to_owned() }
    }
}

/// A request as it goes over the socket.
pub fn request_text(method: &str, path: &str, body: &str) -> (s: String)
    ensures
        s@ == request_of(method@, path@, body@),
{
    let len = body.as_bytes().len();
    let head = text::cat4(
        method,
        " ",
        path,
        " HTTP/1.1\r\nHost: localhost\r\nContent-Type: application/json\r\nContent-Length: ",
    );
    text::cat4(
        &head,
        &text::decimal_string(len as u64),
        "\r\nConnection: close\r\n\r\n",
        body,
    )
}

/// A request with a JSON object as its body.
pub fn object_request(method: &str, path: &str, fields: &[JsonField]) -> (s: String)
    ensures
        s@ == request_of(method@, path@, json::object_text(json::fields_view(fields@))),
{
    request_text(method, path, &json::object_string(fields))
}

/// What to do with a reply's header as its bytes come in.
#[derive(Debug, Clone, Copy, PartialEq, Eq, Structural)]
pub enum HeaderStep {
    /// Read another byte.
    More,
    /// The header is complete.
    Complete,
    /// Give up.
    TooLarge,
}

/// Whether a header ends here.
pub open spec fn header_ends(bytes: Seq<u8>) -> bool {
    let n = bytes.len();
    n >= 4 && bytes[n - 4] == 13 && bytes[n - 3] == 10 && bytes[n - 2] == 13 && bytes[n - 1] == 10
}

/// What to do after a byte of a reply's header. The empty line that ends it
/// wins over the limit.
pub fn on_header_byte(header: &[u8]) -> (step: HeaderStep)
    ensures
        step == if header_ends(header@) {
            HeaderStep::Complete
        } else if header@.len() > MAX_HEADER_BYTES {
            HeaderStep::TooLarge
        } else {
            HeaderStep::More
        },
{
    let n = header.len();
    if n >= 4 && header[n - 4] == 13 && header[n - 3] == 10 && header[n - 2] == 13 && header[n - 1]
        == 10 {
        HeaderStep::Complete
    } else if n > MAX_HEADER_BYTES {
        HeaderStep::TooLarge
    } else {
        HeaderStep::More
    }
}

/// The error for a header that is too large.
pub fn header_too_large() -> (e: Error)
    ensures
        e matches Error::Io(m) && m@ == "FC API response headers too large"@,
{
    Error::Io("FC API response headers too large".to_owned())
}

/// The status code of a reply: the second word of the first line, 0 if it is
/// no 16-bit number.
pub open spec fn status_of(lines: Seq<Seq<char>>) -> u16 {
    if lines.len() == 0 {
        0
    } else {
        let w = text::words(lines[0]);
        if w.len() < 2 {
            0
        } else {
            match text::read_number(w[1], u16::MAX as nat) {
                Ok(n) => n as u16,
                Err(_) => 0,
            }
        }
    }
}

/// The length that one header line announces.
pub open spec fn length_in(line: Seq<char>) -> Option<nat> {
    match text::after_prefix(text::lowered(line), "content-length:"@) {
        Some(rest) => match text::read_number(text::trimmed(rest), usize::MAX as nat) {
            Ok(n) => Some(n),
            Err(_) => None,
        },
        None => None,
    }
}

/// The length of a reply's body: what the first line that announces one says,
/// 0 if none does.
pub open spec fn body_len_of(lines: Seq<Seq<char>>) -> nat
    decreases lines.len(),
{
    if lines.len() == 0 {
        0
    } else {
        match length_in(lines[0]) {
            Some(n) => n,
            None => body_len_of(lines.skip(1)),
        }
    }
}

/// What a reply's header says.
#[derive(Debug, Clone, Copy)]
pub struct ReplyHead {
    pub status: u16,
    pub content_length: usize,
}

/// The length that one header line announces.
fn announced_length(line: &str) -> (n: Option<usize>)
    ensures
        match (n, length_in(line@)) {
            (Some(x), Some(y)) => x == y,
            (None, None) => true,
            _ => false,
        },
{
    match text::strip_prefix(&text::to_lowercase(line), "content-length:") {
        Some(rest) => match text::parse_number(&text::trim(&rest), usize::MAX as u64) {
            Ok(n) => Some(n as usize),
            Err(_) => None,
        },
        None => None,
    }
}

/// Reads a reply's header: invalid UTF-8 is repaired, a status or a length
/// that is missing or no number counts as 0.
pub fn parse_head(header: &[u8]) -> (h: ReplyHead)
    ensures
        h.status == status_of(text::lines_of(text::utf8_lossy(header@))),
        h.content_length == body_len_of(text::lines_of(text::utf8_lossy(header@))),
{
    let head = text::from_utf8_lossy(header);
    let lines = text::lines(&head);
    let ghost all = text::views(lines@);
    let mut status: u16 = 0;
    if lines.len() > 0 {
        let words = text::split_whitespace(&lines[0]);
        if words.len() > 1 {
            proof {
                assert(text::views(words@)[1] == words@[1]@);
            }
            if let Ok(n) = text::parse_number(&words[1], u16::MAX as u64) {
                status = n as u16;
            }
        }
    }
    let mut i: usize = 0;
    let mut content_length: usize = 0;
    proof {
        assert(all.skip(0) =~= all);
    }
    while i < lines.len()
        invariant_except_break
            i <= lines@.len(),
            all == text::views(lines@),
            content_length == 0,
            body_len_of(all) == body_len_of(all.skip(i as int)),
        ensures
            content_length == body_len_of(all),
        decreases lines@.len() - i,
    {
        proof {
            assert(all.skip(i as int)[0] == lines@[i as int]@);
            assert(all.skip(i as int).skip(1) =~= all.skip(i as int + 1));
        }
        if let Some(n) = announced_length(&lines[i]) {
            content_length = n;
            break;
        }
        i += 1;
    }
    ReplyHead { status, content_length }
}

/// What a reply means: the body on a status of 2xx, otherwise an error with
/// Firecracker's own message if the body carries one.
pub open spec fn reply_of(
    method: Seq<char>,
    path: Seq<char>,
    status: u16,
    body: Seq<char>,
    fault: Result<Option<Seq<char>>, Seq<char>>,
) -> Result<Seq<char>, Seq<char>> {
    if 200 <= status < 300 {
        Ok(body)
    } else {
        let why = match fault {
            Ok(Some(m)) => m,
            _ => "HTTP "@ + text::decimal(status as nat) + ": "@ + body,
        };
        Err("FC API "@ + method + " "@ + path + ": "@ + why)
    }
}

/// What a reply means, given the fault message found in its body.
pub fn judge_reply(
    method: &str,
    path: &str,
    status: u16,
    body: &str,
    fault: Result<Option<String>, String>,
) -> (r: Result<String, Error>)
    ensures
        match (
            r,
            reply_of(
                method@,
                path@,
                status,
                body@,
                match fault {
                    Ok(f) => Ok(text::opt_view(f)),
                    Err(e) => Err(e@),
                },
            ),
        ) {
            (Ok(b), Ok(want)) => b@ == want,
            (Err(Error::Io(m)), Err(why)) => m@ == why,
            _ => false,
        },
{
    if 200 <= status && status < 300 {
        return Ok(body.to_owned());
    }
    let why = match fault {
        Ok(Some(m)) => m,
        _ => text::cat4("HTTP ", &text::decimal_string(status as u64), ": ", body),
    };
    Err(Error::Io(text::cat6("FC API ", method, " ", path, ": ", &why)))
}

/// What the reply to a request means.
pub fn read_reply(method: &str, path: &str, status: u16, body: &[u8]) -> (r: Result<String, Error>)
    ensures
        match (
            r,
            reply_of(
                method@,
                path@,
                status,
                text::utf8_lossy(body@),
                json::member_text(text::utf8_lossy(body@), "fault_message"@),
            ),
        ) {
            (Ok(b), Ok(want)) => b@ == want,
            (Err(Error::Io(m)), Err(why)) => m@ == why,
            _ => false,
        },
{
    let body = text::from_utf8_lossy(body);
    let fault = json::text_member(&body, "fault_message");
    judge_reply(method, path, status, &body, fault)
}

/// What to do after asking a starting VM for its state.
#[derive(Debug)]
pub enum RunningStep {
    /// The VM runs.
    Running,
    /// Ask again after [`RUNNING_POLL_MS`].
    Poll,
    /// Give up.
    Failed(Error),
}

/// What to do after asking a starting VM for its state, given the state found
/// in the reply. The deadline counts only where the VM does not run yet.
pub fn on_state(
    state: Result<Option<String>, String>,
    past_deadline: bool,
    timeout_secs: u64,
) -> (step: RunningStep)
    ensures
        match state {
            Err(e) => step matches RunningStep::Failed(Error::Json(m)) && m@ == e@,
            Ok(s) => {
                let found = match s {
                    Some(s) => s@,
                    None => ""@,
                };
                if found == "Running"@ {
                    step is Running
                } else if past_deadline {
                    step matches RunningStep::Failed(Error::Vmm(m)) && m@
                        == "VM did not reach Running state within "@ + text::decimal(
                        timeout_secs as nat,
                    ) + "s (last state: "@ + text::debug_quoted(found) + ")"@
                } else {
                    step is Poll
                }
            },
        },
{
    let found = match state {
        Err(e) => {
            return RunningStep::Failed(Error::Json(e));
        },
        Ok(Some(s)) => s,
        Ok(None) => "".to_owned(),
    };
    if text::str_eq(&found, "Running") {
        RunningStep::Running
    } else if past_deadline {
        RunningStep::Failed(
            Error::Vmm(
                text::cat5(
                    "VM did not reach Running state within ",
                    &text::decimal_string(timeout_secs),
                    "s (last state: ",
                    &text::quote(&found),
                    ")",
                ),
            ),
        )
    } else {
        RunningStep::Poll
    }
}

/// What to do after asking a starting VM for its state: the reply to `GET /`.
pub fn on_instance_info(body: &str, past_deadline: bool, timeout_secs: u64) -> (step: RunningStep)
    ensures
        match json::member_text(body@, "state"@) {
            Err(e) => step matches RunningStep::Failed(Error::Json(m)) && m@ == e,
            Ok(s) => {
                let found = match s {
                    Some(s) => s,
                    None => ""@,
                };
                if found == "Running"@ {
                    step is Running
                } else if past_deadline {
                    step matches RunningStep::Failed(Error::Vmm(m)) && m@
                        == "VM did not reach Running state within "@ + text::decimal(
                        timeout_secs as nat,
                    ) + "s (last state: "@ + text::debug_quoted(found) + ")"@
                } else {
                    step is Poll
                }
            },
        },
{
    on_state(json::text_member(body, "state"), past_deadline, timeout_secs)
}

} // verus!
