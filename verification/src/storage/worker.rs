//! The worker processes that serve volumes: their command line, the handshake
//! they open with, and what they answer to block requests.

use vstd::prelude::*;

use crate::error::Error;
use crate::storage::volume::DEFAULT_CHUNK_KB;
use crate::text;

verus! {

/// The arguments a worker is spawned with. Without `recover` it creates a
/// volume, whose size must be given; with it, it reattaches to an existing
/// device, and the volume's own metadata is authoritative.
pub open spec fn worker_args(
    dir: Seq<char>,
    size_mb: Option<u64>,
    chunk_kb: Option<u32>,
    recover: bool,
    dev_id: i32,
    queues: u16,
    depth: u16,
) -> Option<Seq<Seq<char>>> {
    let head = seq![
        "ublk-worker"@,
        "--dir"@,
        dir,
        "-n"@,
        text::signed_decimal(dev_id as int),
        "--queues"@,
        text::decimal(queues as nat),
        "--depth"@,
        text::decimal(depth as nat),
    ];
    if recover {
        Some(head.push("--recover"@))
    } else {
        match size_mb {
            None => None,
            Some(mb) => {
                let sized = head.push("--size-mb"@).push(text::decimal(mb as nat));
                match chunk_kb {
                    Some(kb) => Some(sized.push("--chunk-kb"@).push(text::decimal(kb as nat))),
                    None => Some(sized),
                }
            },
        }
    }
}

/// The arguments to spawn a worker with.
pub fn spawn_args(
    dir: &str,
    size_mb: Option<u64>,
    chunk_kb: Option<u32>,
    recover: bool,
    dev_id: i32,
    queues: u16,
    depth: u16,
) -> (r: Result<Vec<String>, Error>)
    ensures
        match (r, worker_args(dir@, size_mb, chunk_kb, recover, dev_id, queues, depth)) {
            (Ok(args), Some(want)) => text::views(args@) == want,
            (Err(Error::Storage(m)), None) => m@ == "size_mb required for new volume"@,
            _ => false,
        },
{
    let id = text::signed_string(dev_id);
    let q = text::decimal_string(queues as u64);
    let d = text::decimal_string(depth as u64);
    let mut args = text::owned(
        &[
            "ublk-worker",
            "--dir",
            dir,
            "-n",
            id.as_str(),
            "--queues",
            q.as_str(),
            "--depth",
            d.as_str(),
        ],
    );
    let ghost head = text::views(args@);
    proof {
        assert(head =~= seq![
            "ublk-worker"@,
            "--dir"@,
            dir@,
            "-n"@,
            id@,
            "--queues"@,
            q@,
            "--depth"@,
            d@,
        ]);
    }
    if recover {
        args.push("--recover".to_owned());
        proof {
            assert(text::views(args@) =~= head.push("--recover"@));
        }
        return Ok(args);
    }
    let mb: u64 = match size_mb {
        Some(mb) => mb,
        None => {
            return Err(Error::Storage("size_mb required for new volume".to_owned()));
        },
    };
    args.push("--size-mb".to_owned());
    args.push(text::decimal_string(mb));
    proof {
        assert(text::views(args@) =~= head.push("--size-mb"@).push(text::decimal(mb as nat)));
    }
    if let Some(kb) = chunk_kb {
        let ghost sized = text::views(args@);
        args.push("--chunk-kb".to_owned());
        args.push(text::decimal_string(kb as u64));
        proof {
            assert(text::views(args@) =~= sized.push("--chunk-kb"@).push(text::decimal(kb as nat)));
        }
    }
    Ok(args)
}

// ---------------------------------------------------------------------------
// The handshake
// ---------------------------------------------------------------------------

/// How long a worker may take to print its handshake, in seconds.
pub const HANDSHAKE_WAIT_SECS: u64 = 15;

/// How long a device may take to appear after the handshake, in seconds.
pub const DEVICE_WAIT_SECS: u64 = 5;

/// How often a device is looked for, in milliseconds.
pub const DEVICE_POLL_MS: u64 = 50;

/// What a line of a worker's output says.
pub enum Handshake {
    /// Not the handshake: read on.
    Noise,
    /// The id of the device that the worker serves.
    Device(i32),
    /// The worker will not come up.
    Failed(Error),
}

/// Reads one line of a worker's output; an empty one means that the output
/// ended. The worker prints `device id: <id>`, and anything else is noise.
pub fn read_handshake(line: &str) -> (h: Handshake)
    ensures
        ({
            let trimmed = text::trimmed(line@);
            if line@.len() == 0 {
                h matches Handshake::Failed(Error::Storage(m)) && m@
                    == "ublk-worker exited before handshake"@
            } else {
                match text::after_prefix(trimmed, "device id: "@) {
                    None => h is Noise,
                    Some(id) => match text::read_i32(id) {
                        Ok(n) => h matches Handshake::Device(d) && d == n,
                        Err(e) => h matches Handshake::Failed(Error::Storage(m)) && m@
                            == "bad ublk-worker handshake "@ + text::debug_quoted(line@) + ": "@
                            + text::signed_error_text(e),
                    },
                }
            }
        }),
{
    if line.is_empty() {
        return Handshake::Failed(
            Error::Storage("ublk-worker exited before handshake".to_owned()),
        );
    }
    let trimmed = text::trim(line);
    match text::strip_prefix(&trimmed, "device id: ") {
        None => Handshake::Noise,
        Some(id) => match text::parse_i32(&id) {
            Ok(n) => Handshake::Device(n),
            Err(e) => Handshake::Failed(
                Error::Storage(
                    text::cat4(
                        "bad ublk-worker handshake ",
                        &text::quote(line),
                        ": ",
                        e.message(),
                    ),
                ),
            ),
        },
    }
}

/// The path of a worker's block device.
pub fn device_path(dev_id: i32) -> (path: String)
    ensures
        path@ == "/dev/ublkb"@ + text::signed_decimal(dev_id as int),
{
    text::cat2("/dev/ublkb", &text::signed_string(dev_id))
}

/// What a worker is reported with that has printed no handshake after
/// [`HANDSHAKE_WAIT_SECS`].
pub fn handshake_timed_out() -> (e: Error)
    ensures
        e matches Error::Storage(m) && m@ == "ublk-worker handshake timed out"@,
{
    Error::Storage("ublk-worker handshake timed out".to_owned())
}

/// What to do while waiting for a worker's device.
#[derive(Debug)]
pub enum DeviceStep {
    /// The worker is up.
    Ready,
    /// Look again after [`DEVICE_POLL_MS`].
    Poll,
    /// Give up.
    Failed(Error),
}

/// What to do after looking for a worker's device. `past_deadline` says whether
/// [`DEVICE_WAIT_SECS`] have passed since the handshake; a device that is there
/// counts all the same.
pub fn on_device(dev_path: &str, found: bool, past_deadline: bool) -> (step: DeviceStep)
    ensures
        if found {
            step is Ready
        } else if past_deadline {
            step matches DeviceStep::Failed(Error::Storage(m)) && m@ == dev_path@
                + " did not appear after ublk-worker handshake"@
        } else {
            step is Poll
        },
{
    if found {
        DeviceStep::Ready
    } else if past_deadline {
        DeviceStep::Failed(
            Error::Storage(text::cat2(dev_path, " did not appear after ublk-worker handshake")),
        )
    } else {
        DeviceStep::Poll
    }
}

// ---------------------------------------------------------------------------
// Block requests
// ---------------------------------------------------------------------------

/// Operation code of a read.
pub const OP_READ: u32 = 0;

/// Operation code of a write.
pub const OP_WRITE: u32 = 1;

/// Operation code of a flush.
pub const OP_FLUSH: u32 = 2;

/// Operation code of a discard.
pub const OP_DISCARD: u32 = 3;

/// Error number of an IO error.
pub const EIO: i32 = 5;

/// Error number of an operation that is not supported.
pub const EOPNOTSUPP: i32 = 95;

/// What a block request asks for.
#[derive(Debug, Clone, Copy, PartialEq, Eq, Structural)]
pub enum BlockOp {
    /// Transfer `bytes` bytes at byte offset `off`.
    Transfer { write: bool, off: u64, bytes: u64 },
    Flush,
    /// Nothing to do: chunks are sparse, so a missing one already reads as
    /// zeros.
    Discard,
    Unsupported,
}

/// Decodes a block request, whose range is given in sectors of 512 bytes.
pub fn decode_request(op_flags: u32, start_sector: u64, nr_sectors: u32) -> (op: BlockOp)
    requires
        start_sector * 512 <= u64::MAX,
    ensures
        ({
            let code = op_flags % 256;
            op == if code == OP_READ || code == OP_WRITE {
                BlockOp::Transfer {
                    write: code == OP_WRITE,
                    off: (start_sector * 512) as u64,
                    bytes: (nr_sectors * 512) as u64,
                }
            } else if code == OP_FLUSH {
                BlockOp::Flush
            } else if code == OP_DISCARD {
                BlockOp::Discard
            } else {
                BlockOp::Unsupported
            }
        }),
{
    let code: u32 = op_flags % 256;
    if code == OP_READ || code == OP_WRITE {
        BlockOp::Transfer {
            write: code == OP_WRITE,
            off: start_sector * 512,
            bytes: nr_sectors as u64 * 512,
        }
    } else if code == OP_FLUSH {
        BlockOp::Flush
    } else if code == OP_DISCARD {
        BlockOp::Discard
    } else {
        BlockOp::Unsupported
    }
}

/// The result a block request is answered with: what was transferred, zero,
/// or a negated error number.
pub fn request_result(op: BlockOp, ok: bool) -> (res: i32)
    requires
        op matches BlockOp::Transfer { bytes, .. } ==> bytes <= i32::MAX,
    ensures
        res == match op {
            BlockOp::Transfer { bytes, .. } => if ok {
                bytes as int
            } else {
                -EIO
            },
            BlockOp::Flush => if ok {
                0
            } else {
                -EIO
            },
            BlockOp::Discard => 0,
            BlockOp::Unsupported => -EOPNOTSUPP,
        },
{
    match op {
        BlockOp::Transfer { bytes, .. } => if ok {
            bytes as i32
        } else {
            -EIO
        },
        BlockOp::Flush => if ok {
            0
        } else {
            -EIO
        },
        BlockOp::Discard => 0,
        BlockOp::Unsupported => -EOPNOTSUPP,
    }
}

/// The geometry a worker creates a volume with: its size and chunk size in
/// bytes.
pub fn new_volume_geometry(size_mb: Option<u64>, chunk_kb: Option<u32>) -> (r: Result<
    (u64, u64),
    Error,
>)
    requires
        size_mb is Some ==> size_mb->0 * 1048576 <= u64::MAX,
    ensures
        match (r, size_mb) {
            (Ok((size, chunk)), Some(mb)) => size == mb * 1048576 && chunk == 1024 * (
            match chunk_kb {
                Some(kb) => kb,
                None => DEFAULT_CHUNK_KB,
            }),
            (Err(Error::Storage(m)), None) => m@
                == "ublk-worker: --size-mb required without --recover"@,
            _ => false,
        },
{
    match size_mb {
        None => Err(
            Error::Storage("ublk-worker: --size-mb required without --recover".to_owned()),
        ),
        Some(mb) => {
            let kb: u32 = match chunk_kb {
                Some(kb) => kb,
                None => DEFAULT_CHUNK_KB,
            };
            Ok((mb * 1048576, kb as u64 * 1024))
        },
    }
}

} // verus!
