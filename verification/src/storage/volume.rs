//! Layout and IO of chunk-backed volumes.
//!
//! ```text
//! <dir>/meta.json                  format version, size, chunk size
//! <dir>/chunks/<hi>/<lo>/<idx>     one file per chunk, sharded two levels
//!                                  by chunk index; missing chunk = zeros
//! ```

use std::collections::HashMap;

use vstd::arithmetic::power2::*;
use vstd::prelude::*;

use crate::error::Error;
use crate::storage::cache::{flush_groups, FdCache};
use crate::text;

verus! {

/// Default chunk size in KiB.
pub const DEFAULT_CHUNK_KB: u32 = 1024;

/// Open-file cache capacity. Dirty files are pinned and can push the cache
/// past it.
pub const FD_CACHE_CAP: usize = 4096;

/// How many groups a flush is split into at most.
pub const FLUSH_THREADS: usize = 8;

/// Whether the create-VM API accepts a chunk size, in KiB.
pub open spec fn allowed_chunk_kb(kb: u32) -> bool {
    kb == 256 || kb == 512 || kb == 1024 || kb == 2048 || kb == 4096
}

/// Whether the create-VM API accepts a chunk size, in KiB.
pub fn chunk_kb_allowed(kb: u32) -> (b: bool)
    ensures
        b == allowed_chunk_kb(kb),
{
    kb == 256 || kb == 512 || kb == 1024 || kb == 2048 || kb == 4096
}

// ---------------------------------------------------------------------------
// Geometry
// ---------------------------------------------------------------------------

/// What `meta.json` says of a volume.
#[derive(Debug, Clone, Copy, PartialEq, Eq, Structural)]
pub struct VolumeMeta {
    pub version: u32,
    pub size_bytes: u64,
    pub chunk_size: u64,
}

/// Whether a chunk size can be used.
pub open spec fn good_chunk_size(chunk_size: u64) -> bool {
    is_pow2(chunk_size as int) && chunk_size >= 4096
}

/// Whether a volume size can be used: whole sectors, at least one.
pub open spec fn good_volume_size(size_bytes: u64) -> bool {
    size_bytes > 0 && size_bytes % 512 == 0
}

/// Whether `n` is a power of two.
fn power_of_two(n: u64) -> (b: bool)
    ensures
        b == is_pow2(n as int),
    decreases n,
{
    proof {
        reveal(is_pow2);
    }
    if n == 0 {
        false
    } else if n == 1 {
        true
    } else if n % 2 == 0 {
        power_of_two(n / 2)
    } else {
        false
    }
}

impl VolumeMeta {
    /// What a fresh volume's `meta.json` says, if the geometry is usable.
    pub fn create(size_bytes: u64, chunk_size: u64) -> (r: Result<VolumeMeta, Error>)
        ensures
            match r {
                Ok(meta) => good_chunk_size(chunk_size) && good_volume_size(size_bytes) && meta == (
                VolumeMeta { version: 1, size_bytes, chunk_size }),
                Err(Error::Storage(m)) => if !good_chunk_size(chunk_size) {
                    m@ == "chunk size "@ + text::decimal(chunk_size as nat)
                        + " must be a power of two >= 4096"@
                } else {
                    !good_volume_size(size_bytes) && m@ == "volume size "@ + text::decimal(
                        size_bytes as nat,
                    ) + " must be a positive multiple of 512"@
                },
                Err(_) => false,
            },
    {
        if !power_of_two(chunk_size) || chunk_size < 4096 {
            return Err(
                Error::Storage(
                    text::cat3(
                        "chunk size ",
                        &text::decimal_string(chunk_size),
                        " must be a power of two >= 4096",
                    ),
                ),
            );
        }
        if size_bytes == 0 || size_bytes % 512 != 0 {
            return Err(
                Error::Storage(
                    text::cat3(
                        "volume size ",
                        &text::decimal_string(size_bytes),
                        " must be a positive multiple of 512",
                    ),
                ),
            );
        }
        Ok(VolumeMeta { version: 1, size_bytes, chunk_size })
    }

    /// Accepts what an existing volume's `meta.json` says, if its format is
    /// one we read.
    pub fn open(self) -> (r: Result<VolumeMeta, Error>)
        ensures
            match r {
                Ok(meta) => self.version == 1 && meta == self,
                Err(Error::Storage(m)) => self.version != 1 && m@
                    == "unsupported volume format version "@ + text::decimal(self.version as nat),
                Err(_) => false,
            },
    {
        if self.version != 1 {
            return Err(
                Error::Storage(
                    text::cat2(
                        "unsupported volume format version ",
                        &text::decimal_string(self.version as u64),
                    ),
                ),
            );
        }
        Ok(self)
    }
}

/// Where a chunk's file is: sharded by the two low bytes of its index.
pub open spec fn chunk_file(dir: Seq<char>, idx: u64) -> Seq<char> {
    text::path_joined(
        text::path_joined(
            text::path_joined(
                text::path_joined(dir, "chunks"@),
                text::lower_hex2((idx / 256 % 256) as nat),
            ),
            text::lower_hex2((idx % 256) as nat),
        ),
        text::decimal(idx as nat),
    )
}

/// Where a chunk's file is.
pub fn chunk_path(dir: &str, idx: u64) -> (path: String)
    ensures
        path@ == chunk_file(dir@, idx),
{
    let chunks = text::path_join(dir, "chunks");
    let hi = text::path_join(&chunks, &text::lower_hex_pair((idx / 256 % 256) as u8));
    let lo = text::path_join(&hi, &text::lower_hex_pair((idx % 256) as u8));
    text::path_join(&lo, &text::decimal_string(idx))
}

// ---------------------------------------------------------------------------
// Requests
// ---------------------------------------------------------------------------

/// The part of a request that falls into one chunk: `len` bytes of the buffer
/// from `pos` on, and of the chunk from `in_off` on.
#[derive(Debug, Clone, Copy, PartialEq, Eq, Structural)]
pub struct Segment {
    pub idx: u64,
    pub in_off: u64,
    pub pos: u64,
    pub len: u64,
}

/// The segment of a request that begins `pos` bytes into it.
pub open spec fn segment_at(off: u64, pos: u64, len: u64, chunk_size: u64) -> Segment {
    let abs = off + pos;
    let in_off = abs % chunk_size as int;
    Segment {
        idx: (abs / chunk_size as int) as u64,
        in_off: in_off as u64,
        pos,
        len: if chunk_size - in_off < len - pos {
            (chunk_size - in_off) as u64
        } else {
            (len - pos) as u64
        },
    }
}

/// The segments of a request from `pos` on.
pub open spec fn segments_from(off: u64, pos: u64, len: u64, chunk_size: u64) -> Seq<Segment>
    decreases len - pos,
{
    if pos >= len || chunk_size == 0 {
        seq![]
    } else {
        let s = segment_at(off, pos, len, chunk_size);
        if s.len == 0 || s.len > len - pos {
            seq![]
        } else {
            seq![s] + segments_from(off, (pos + s.len) as u64, len, chunk_size)
        }
    }
}

/// Whether a volume serves a request: whole sectors, within the volume.
pub open spec fn servable(meta: VolumeMeta, off: u64, len: u64) -> bool {
    off % 512 == 0 && len % 512 == 0 && off + len <= meta.size_bytes
}

/// A segment lies in its chunk, is not empty, and stands for the bytes at its
/// place in the request.
proof fn lemma_segment_at(off: u64, pos: u64, len: u64, chunk_size: u64)
    requires
        pos < len,
        off + len <= u64::MAX,
        chunk_size > 0,
    ensures
        ({
            let s = segment_at(off, pos, len, chunk_size);
            &&& 0 < s.len <= len - pos
            &&& s.in_off + s.len <= chunk_size
            &&& s.idx * chunk_size + s.in_off == off + pos
            &&& s.pos == pos
        }),
{
    let abs = off + pos;
    vstd::arithmetic::div_mod::lemma_fundamental_div_mod(abs, chunk_size as int);
    vstd::arithmetic::div_mod::lemma_mod_bound(abs, chunk_size as int);
    vstd::arithmetic::div_mod::lemma_div_is_ordered_by_denominator(abs, 1, chunk_size as int);
    vstd::arithmetic::div_mod::lemma_div_pos_is_pos(abs, chunk_size as int);
    assert((abs / chunk_size as int) * chunk_size == chunk_size * (abs / chunk_size as int))
        by (nonlinear_arith);
}

/// Splits a request into the parts that fall into one chunk each, in order. A
/// request that is not made of whole sectors, or that does not lie within the
/// volume, is refused.
pub fn plan_io(meta: &VolumeMeta, off: u64, len: u64) -> (r: Result<Vec<Segment>, Error>)
    requires
        meta.chunk_size > 0,
    ensures
        match r {
            Ok(segments) => servable(*meta, off, len) && segments@ == segments_from(
                off,
                0,
                len,
                meta.chunk_size,
            ),
            Err(Error::Io(m)) => !servable(*meta, off, len) && m@ == "unaligned or out of range"@,
            Err(_) => false,
        },
{
    let end = off.checked_add(len);
    let within = match end {
        Some(e) => e <= meta.size_bytes,
        None => false,
    };
    if off % 512 != 0 || len % 512 != 0 || !within {
        return Err(Error::Io("unaligned or out of range".to_owned()));
    }
    let cs: u64 = meta.chunk_size;
    let mut segments: Vec<Segment> = Vec::new();
    let mut pos: u64 = 0;
    proof {
        assert(segments@ + segments_from(off, 0, len, cs) =~= segments_from(off, 0, len, cs));
    }
    while pos < len
        invariant
            cs > 0,
            pos <= len,
            off + len <= u64::MAX,
            segments@ + segments_from(off, pos, len, cs) == segments_from(off, 0, len, cs),
        decreases len - pos,
    {
        let abs: u64 = off + pos;
        let in_off: u64 = abs % cs;
        let room: u64 = cs - in_off;
        let n: u64 = if room < len - pos {
            room
        } else {
            len - pos
        };
        let s = Segment { idx: abs / cs, in_off, pos, len: n };
        proof {
            lemma_segment_at(off, pos, len, cs);
            assert(s == segment_at(off, pos, len, cs));
            let rest = segments_from(off, (pos + n) as u64, len, cs);
            assert(segments@ + (seq![s] + rest) =~= segments@.push(s) + rest);
        }
        segments.push(s);
        pos += n;
    }
    proof {
        assert(segments@ + segments_from(off, pos, len, cs) =~= segments@);
    }
    Ok(segments)
}

// ---------------------------------------------------------------------------
// Contents
// ---------------------------------------------------------------------------

/// What a file holds once `data` was written at `at`: it grows as needed, and
/// what lies between its old end and `at` reads as zeros.
pub open spec fn file_written(file: Seq<u8>, at: nat, data: Seq<u8>) -> Seq<u8> {
    let end = at + data.len();
    Seq::new(
        if end > file.len() {
            end
        } else {
            file.len()
        },
        |k: int|
            if at <= k < end {
                data[k - at]
            } else if k < file.len() {
                file[k]
            } else {
                0u8
            },
    )
}

/// What reading `n` bytes at `at` leaves in a zeroed buffer: what lies past
/// the file's end stays zero.
pub open spec fn file_read(file: Seq<u8>, at: nat, n: nat) -> Seq<u8> {
    Seq::new(
        n,
        |k: int|
            if at + k < file.len() {
                file[at + k]
            } else {
                0u8
            },
    )
}

/// The content of a chunk's file; empty if there is none.
pub open spec fn chunk_content(chunks: Map<u64, Seq<u8>>, idx: u64) -> Seq<u8> {
    if chunks.contains_key(idx) {
        chunks[idx]
    } else {
        seq![]
    }
}

/// The byte of a volume at an address.
pub open spec fn volume_byte(chunks: Map<u64, Seq<u8>>, chunk_size: u64, addr: int) -> u8 {
    let file = chunk_content(chunks, (addr / chunk_size as int) as u64);
    let at = addr % chunk_size as int;
    if at < file.len() {
        file[at]
    } else {
        0u8
    }
}

/// Carries out the segments of a write, one after the other.
pub open spec fn write_segments(
    chunks: Map<u64, Seq<u8>>,
    segments: Seq<Segment>,
    data: Seq<u8>,
) -> Map<u64, Seq<u8>>
    decreases segments.len(),
{
    if segments.len() == 0 {
        chunks
    } else {
        let s = segments[0];
        let part = data.subrange(s.pos as int, s.pos + s.len);
        let next = chunks.insert(
            s.idx,
            file_written(chunk_content(chunks, s.idx), s.in_off as nat, part),
        );
        write_segments(next, segments.drop_first(), data)
    }
}

/// Carries out the segments of a read, one after the other, from a zeroed
/// buffer.
pub open spec fn read_segments(chunks: Map<u64, Seq<u8>>, segments: Seq<Segment>) -> Seq<u8>
    decreases segments.len(),
{
    if segments.len() == 0 {
        seq![]
    } else {
        let s = segments[0];
        file_read(chunk_content(chunks, s.idx), s.in_off as nat, s.len as nat) + read_segments(
            chunks,
            segments.drop_first(),
        )
    }
}

/// Where an address lies: chunk and offset are unique.
proof fn lemma_address(idx: int, in_off: int, k: int, chunk_size: int)
    requires
        chunk_size > 0,
        0 <= k,
        0 <= in_off + k < chunk_size,
    ensures
        (idx * chunk_size + in_off + k) / chunk_size == idx,
        (idx * chunk_size + in_off + k) % chunk_size == in_off + k,
{
    vstd::arithmetic::div_mod::lemma_fundamental_div_mod_converse(
        idx * chunk_size + in_off + k,
        chunk_size,
        idx,
        in_off + k,
    );
}

/// One segment of a write changes the bytes it stands for, and no others.
proof fn lemma_segment_written(
    chunks: Map<u64, Seq<u8>>,
    s: Segment,
    part: Seq<u8>,
    chunk_size: u64,
    addr: int,
)
    requires
        chunk_size > 0,
        s.in_off + s.len <= chunk_size,
        part.len() == s.len,
        0 <= addr <= u64::MAX,
    ensures
        ({
            let next = chunks.insert(
                s.idx,
                file_written(chunk_content(chunks, s.idx), s.in_off as nat, part),
            );
            let base = s.idx * chunk_size + s.in_off;
            volume_byte(next, chunk_size, addr) == if base <= addr < base + s.len {
                part[addr - base]
            } else {
                volume_byte(chunks, chunk_size, addr)
            }
        }),
{
    let cs = chunk_size as int;
    let base = s.idx * chunk_size + s.in_off;
    let idx = addr / cs;
    let at = addr % cs;
    vstd::arithmetic::div_mod::lemma_fundamental_div_mod(addr, cs);
    vstd::arithmetic::div_mod::lemma_mod_bound(addr, cs);
    vstd::arithmetic::div_mod::lemma_div_pos_is_pos(addr, cs);
    vstd::arithmetic::div_mod::lemma_div_is_ordered_by_denominator(addr, 1, cs);
    assert(0 <= idx <= u64::MAX);
    assert(cs * idx == idx * cs) by (nonlinear_arith);
    if idx == s.idx {
        assert(addr == s.idx * chunk_size + at);
    } else {
        if base <= addr < base + s.len {
            lemma_address(s.idx as int, s.in_off as int, addr - base, cs);
        }
        assert(idx as u64 != s.idx);
    }
}

/// Writing the segments of a request puts the data where it was asked for and
/// leaves every other byte of the volume as it was.
proof fn lemma_write_segments(
    chunks: Map<u64, Seq<u8>>,
    off: u64,
    pos: u64,
    data: Seq<u8>,
    chunk_size: u64,
    addr: int,
)
    requires
        chunk_size > 0,
        pos <= data.len(),
        off + data.len() <= u64::MAX,
        0 <= addr <= u64::MAX,
    ensures
        volume_byte(
            write_segments(chunks, segments_from(off, pos, data.len() as u64, chunk_size), data),
            chunk_size,
            addr,
        ) == if off + pos <= addr < off + data.len() {
            data[addr - off]
        } else {
            volume_byte(chunks, chunk_size, addr)
        },
    decreases data.len() - pos,
{
    let len = data.len() as u64;
    if pos < len {
        lemma_segment_at(off, pos, len, chunk_size);
        let s = segment_at(off, pos, len, chunk_size);
        let next_pos = (pos + s.len) as u64;
        let rest = segments_from(off, next_pos, len, chunk_size);
        let all = segments_from(off, pos, len, chunk_size);
        assert(all == seq![s] + rest);
        assert(all.drop_first() =~= rest);
        let part = data.subrange(s.pos as int, s.pos + s.len);
        let next = chunks.insert(
            s.idx,
            file_written(chunk_content(chunks, s.idx), s.in_off as nat, part),
        );
        lemma_segment_written(chunks, s, part, chunk_size, addr);
        lemma_write_segments(next, off, next_pos, data, chunk_size, addr);
    }
}

/// Reading the segments of a request gives the volume's bytes, in order.
proof fn lemma_read_segments(
    chunks: Map<u64, Seq<u8>>,
    off: u64,
    pos: u64,
    len: u64,
    chunk_size: u64,
)
    requires
        chunk_size > 0,
        pos <= len,
        off + len <= u64::MAX,
    ensures
        read_segments(chunks, segments_from(off, pos, len, chunk_size)) == Seq::new(
            (len - pos) as nat,
            |k: int| volume_byte(chunks, chunk_size, off + pos + k),
        ),
    decreases len - pos,
{
    let want = Seq::new(
        (len - pos) as nat,
        |k: int| volume_byte(chunks, chunk_size, off + pos + k),
    );
    let got = read_segments(chunks, segments_from(off, pos, len, chunk_size));
    if pos < len {
        lemma_segment_at(off, pos, len, chunk_size);
        let s = segment_at(off, pos, len, chunk_size);
        let next_pos = (pos + s.len) as u64;
        let rest = segments_from(off, next_pos, len, chunk_size);
        let all = segments_from(off, pos, len, chunk_size);
        assert(all == seq![s] + rest);
        assert(all.drop_first() =~= rest);
        lemma_read_segments(chunks, off, next_pos, len, chunk_size);
        let first = file_read(chunk_content(chunks, s.idx), s.in_off as nat, s.len as nat);
        let tail = read_segments(chunks, rest);
        assert(got == first + tail);
        assert forall|k: int| 0 <= k < len - pos implies got[k] == want[k] by {
            if k < s.len {
                lemma_address(s.idx as int, s.in_off as int, k, chunk_size as int);
                assert(got[k] == first[k]);
            } else {
                assert(got[k] == tail[k - s.len]);
            }
        }
        assert(got =~= want);
    } else {
        assert(got =~= want);
    }
}

/// A write within the volume followed by a read of any range gives the
/// written bytes where the two overlap, and what was there before elsewhere.
pub proof fn law_read_gives_back_write(
    chunks: Map<u64, Seq<u8>>,
    chunk_size: u64,
    off: u64,
    data: Seq<u8>,
    at: u64,
    len: u64,
)
    requires
        chunk_size > 0,
        off + data.len() <= u64::MAX,
        at + len <= u64::MAX,
    ensures
        ({
            let after = write_segments(
                chunks,
                segments_from(off, 0, data.len() as u64, chunk_size),
                data,
            );
            let got = read_segments(after, segments_from(at, 0, len, chunk_size));
            &&& got.len() == len
            &&& forall|k: int|
                0 <= k < len ==> #[trigger] got[k] == if off <= at + k < off + data.len() {
                    data[at + k - off]
                } else {
                    volume_byte(chunks, chunk_size, at + k)
                }
        }),
{
    let after = write_segments(
        chunks,
        segments_from(off, 0, data.len() as u64, chunk_size),
        data,
    );
    lemma_read_segments(after, at, 0, len, chunk_size);
    let got = read_segments(after, segments_from(at, 0, len, chunk_size));
    assert forall|k: int| 0 <= k < len implies #[trigger] got[k] == if off <= at + k < off
        + data.len() {
        data[at + k - off]
    } else {
        volume_byte(chunks, chunk_size, at + k)
    } by {
        lemma_write_segments(chunks, off, 0, data, chunk_size, at + k);
    }
}

/// A volume without chunk files reads as zeros.
pub proof fn law_missing_chunks_read_as_zeros(chunk_size: u64, at: u64, len: u64)
    requires
        chunk_size > 0,
        at + len <= u64::MAX,
    ensures
        read_segments(Map::<u64, Seq<u8>>::empty(), segments_from(at, 0, len, chunk_size))
            == Seq::new(len as nat, |k: int| 0u8),
{
    let none = Map::<u64, Seq<u8>>::empty();
    lemma_read_segments(none, at, 0, len, chunk_size);
    assert(read_segments(none, segments_from(at, 0, len, chunk_size)) =~= Seq::new(
        len as nat,
        |k: int| 0u8,
    ));
}

/// The segments of a request follow one another without gap or overlap, each
/// inside one chunk.
pub proof fn law_segments_tile_request(off: u64, pos: u64, len: u64, chunk_size: u64, i: int)
    requires
        chunk_size > 0,
        pos <= len,
        off + len <= u64::MAX,
        0 <= i < segments_from(off, pos, len, chunk_size).len(),
    ensures
        ({
            let all = segments_from(off, pos, len, chunk_size);
            let s = all[i];
            &&& s.len > 0
            &&& s.in_off + s.len <= chunk_size
            &&& s.idx * chunk_size + s.in_off == off + s.pos
            &&& s.pos == if i == 0 {
                pos as int
            } else {
                all[i - 1].pos + all[i - 1].len
            }
            &&& i == all.len() - 1 ==> s.pos + s.len == len
        }),
    decreases len - pos,
{
    lemma_segment_at(off, pos, len, chunk_size);
    let s = segment_at(off, pos, len, chunk_size);
    let next_pos = (pos + s.len) as u64;
    let rest = segments_from(off, next_pos, len, chunk_size);
    let all = segments_from(off, pos, len, chunk_size);
    assert(all == seq![s] + rest);
    if i > 0 {
        law_segments_tile_request(off, next_pos, len, chunk_size, i - 1);
        assert(all[i] == rest[i - 1]);
        if i > 1 {
            assert(all[i - 1] == rest[i - 2]);
        }
    } else if rest.len() == 0 {
        if next_pos < len {
            lemma_segment_at(off, next_pos, len, chunk_size);
        }
    }
}

// ---------------------------------------------------------------------------
// Volumes
// ---------------------------------------------------------------------------

/// An open volume: its geometry, which of its chunk files are open, and which
/// hold data that no flush has covered yet, with the number of the last write
/// to each.
#[derive(Debug)]
pub struct Volume {
    pub dir: String,
    pub meta: VolumeMeta,
    pub fds: FdCache,
    pub dirty: HashMap<u64, u64>,
    /// How many writes there were.
    pub writes: u64,
}

impl Volume {
    /// Whether the geometry is usable, the cache sound, and the writes counted.
    pub open spec fn wf(self) -> bool {
        self.meta.chunk_size > 0 && self.fds.wf() && counted(self.dirty@, self.writes)
    }

    /// Opens a volume whose `meta.json` was accepted.
    pub fn open(dir: &str, meta: VolumeMeta) -> (v: Volume)
        requires
            meta.chunk_size > 0,
        ensures
            v.wf(),
            v.dir@ == dir@,
            v.meta == meta,
            v.fds.map@ == Map::<u64, u64>::empty(),
            v.fds.order@ == Seq::<(u64, u64)>::empty(),
            v.fds.next_gen == 0,
            v.fds.cap == FD_CACHE_CAP,
            v.dirty@ == Map::<u64, u64>::empty(),
            v.writes == 0,
    {
        Volume::with_cache(dir, meta, FD_CACHE_CAP)
    }

    /// Opens a volume with room for `cap` open chunk files.
    pub fn with_cache(dir: &str, meta: VolumeMeta, cap: usize) -> (v: Volume)
        requires
            meta.chunk_size > 0,
            cap <= usize::MAX / 2,
        ensures
            v.wf(),
            v.dir@ == dir@,
            v.meta == meta,
            v.fds.map@ == Map::<u64, u64>::empty(),
            v.fds.order@ == Seq::<(u64, u64)>::empty(),
            v.fds.next_gen == 0,
            v.fds.cap == cap,
            v.dirty@ == Map::<u64, u64>::empty(),
            v.writes == 0,
    {
        broadcast use vstd::std_specs::hash::group_hash_axioms;

        let dirty: HashMap<u64, u64> = HashMap::new();
        Volume { dir: dir.to_owned(), meta, fds: FdCache::new(cap), dirty, writes: 0 }
    }

    /// The volume's size.
    pub fn size_bytes(&self) -> (n: u64)
        ensures
            n == self.meta.size_bytes,
    {
        self.meta.size_bytes
    }

    /// Where a chunk's file is.
    pub fn chunk_path(&self, idx: u64) -> (path: String)
        ensures
            path@ == chunk_file(self.dir@, idx),
    {
        chunk_path(&self.dir, idx)
    }

    /// The parts of a request, each within one chunk; see [`plan_io`].
    pub fn do_io(&self, off: u64, len: u64) -> (r: Result<Vec<Segment>, Error>)
        requires
            self.wf(),
        ensures
            match r {
                Ok(segments) => servable(self.meta, off, len) && segments@ == segments_from(
                    off,
                    0,
                    len,
                    self.meta.chunk_size,
                ),
                Err(Error::Io(m)) => !servable(self.meta, off, len) && m@
                    == "unaligned or out of range"@,
                Err(_) => false,
            },
    {
        plan_io(&self.meta, off, len)
    }

    /// Marks a chunk's file as used, if it is open; otherwise it has to be
    /// opened (and created, for a write).
    pub fn chunk_fd(&mut self, idx: u64) -> (open: bool)
        requires
            old(self).wf(),
            old(self).fds.next_gen < u64::MAX,
        ensures
            final(self).wf(),
            final(self).dir == old(self).dir,
            final(self).meta == old(self).meta,
            final(self).dirty@ == old(self).dirty@,
            final(self).writes == old(self).writes,
            final(self).fds.cap == old(self).fds.cap,
            open == old(self).fds.map@.contains_key(idx),
            final(self).fds.map@.dom() == old(self).fds.map@.dom(),
            open ==> final(self).fds.next_gen == old(self).fds.next_gen + 1
                && final(self).fds.map@ == old(self).fds.map@.insert(
                idx,
                final(self).fds.next_gen,
            ) && final(self).fds.order@ == old(self).fds.order@.push(
                (idx, final(self).fds.next_gen),
            ),
            !open ==> final(self).fds.map@ == old(self).fds.map@ && final(self).fds.order@ == old(
                self,
            ).fds.order@ && final(self).fds.next_gen == old(self).fds.next_gen,
    {
        let open = self.fds.touch(idx);
        proof {
            assert(self.fds.map@.dom() =~= old(self).fds.map@.dom());
        }
        open
    }

    /// Takes note that a chunk's file was opened, and returns the files to
    /// close so that the cache keeps to its capacity.
    pub fn opened(&mut self, idx: u64) -> (closed: Vec<u64>)
        requires
            old(self).wf(),
            old(self).fds.next_gen < u64::MAX,
        ensures
            final(self).wf(),
            final(self).dir == old(self).dir,
            final(self).meta == old(self).meta,
            final(self).dirty@ == old(self).dirty@,
            final(self).writes == old(self).writes,
            final(self).fds.cap == old(self).fds.cap,
            final(self).fds.next_gen == old(self).fds.next_gen + 1,
            final(self).fds.map@.contains_key(idx),
            forall|i: u64|
                old(self).dirty@.contains_key(i) && #[trigger] old(self).fds.map@.contains_key(i)
                    ==> final(self).fds.map@.contains_key(i),
            forall|k: int|
                0 <= k < closed@.len() ==> !old(self).dirty@.contains_key(#[trigger] closed@[k]),
            (final(self).fds.map@, final(self).fds.order@, closed@)
                == crate::storage::cache::evict(
                old(self).fds.map@.insert(idx, final(self).fds.next_gen),
                old(self).fds.order@.push((idx, final(self).fds.next_gen)),
                old(self).dirty@.dom(),
                idx,
                old(self).fds.cap as nat,
                2 * old(self).fds.cap as nat,
            ),
    {
        let closed = self.fds.insert(idx, &self.dirty);
        proof {
            let open = old(self).fds.map@.insert(idx, self.fds.next_gen);
            crate::storage::cache::law_pinned_files_stay_open(
                open,
                old(self).fds.order@.push((idx, self.fds.next_gen)),
                self.dirty@.dom(),
                idx,
                self.fds.cap as nat,
                2 * self.fds.cap as nat,
            );
            assert(open.contains_key(idx));
            assert forall|i: u64|
                old(self).dirty@.contains_key(i) && #[trigger] old(self).fds.map@.contains_key(
                    i,
                ) implies self.fds.map@.contains_key(i) by {
                assert(open.contains_key(i));
            }
        }
        closed
    }

    /// Takes note that a chunk was written: no flush covers it yet.
    pub fn wrote(&mut self, idx: u64)
        requires
            old(self).wf(),
            old(self).writes < u64::MAX,
        ensures
            final(self).wf(),
            final(self).dir == old(self).dir,
            final(self).meta == old(self).meta,
            final(self).fds == old(self).fds,
            final(self).writes == old(self).writes + 1,
            final(self).dirty@ == written(old(self).dirty@, old(self).writes, idx),
    {
        broadcast use vstd::std_specs::hash::group_hash_axioms;

        self.writes = self.writes + 1;
        self.dirty.insert(idx, self.writes);
    }

    /// The chunks to sync, in groups to be worked on in parallel: every dirty
    /// chunk is in one of them.
    pub fn flush(&self) -> (groups: Vec<Vec<u64>>)
        ensures
            exists|items: Seq<u64>|
                {
                    &&& #[trigger] items.to_set() == self.dirty@.dom()
                    &&& items.no_duplicates()
                    &&& groups@.len() == crate::storage::cache::group_count(items.len())
                    &&& forall|k: int|
                        0 <= k < groups@.len() ==> (#[trigger] groups@[k])@
                            == crate::storage::cache::dealt(
                            items,
                            crate::storage::cache::group_count(items.len()),
                            k,
                        )
                },
    {
        let items = self.dirty_list();
        flush_groups(&items)
    }

    /// The dirty chunks, in no particular order.
    fn dirty_list(&self) -> (items: Vec<u64>)
        ensures
            items@.to_set() == self.dirty@.dom(),
            items@.no_duplicates(),
    {
        broadcast use vstd::std_specs::hash::group_hash_axioms;

        let mut items: Vec<u64> = Vec::new();
        let ghost all = vstd::std_specs::iter::IteratorSpec::remaining(
            &vstd::std_specs::hash::spec_keys_iter(&self.dirty),
        );
        for x in it: self.dirty.keys()
            invariant
                it.seq() == all,
                items@ == all.unref().take(it.index() as int),
        {
            items.push(*x);
            proof {
                assert(all.unref().take(it.index() as int + 1) =~= all.unref().take(
                    it.index() as int,
                ).push(*x));
            }
        }
        proof {
            assert(all.unref().take(all.len() as int) =~= all.unref());
            assert forall|i: int, j: int| 0 <= i < items@.len() && 0 <= j < items@.len() && i
                != j implies items@[i] != items@[j] by {
                assert(all[i] != all[j]);
            }
        }
        items
    }

    /// What a sync of a chunk that begins now will cover: the chunk's writes up
    /// to this one. A clean chunk has none.
    pub fn sync_mark(&self, idx: u64) -> (mark: Option<u64>)
        ensures
            mark == if self.dirty@.contains_key(idx) {
                Some(self.dirty@[idx])
            } else {
                None
            },
    {
        broadcast use vstd::std_specs::hash::group_hash_axioms;

        match self.dirty.get(&idx) {
            Some(n) => Some(*n),
            None => None,
        }
    }

    /// Takes note that a chunk was synced up to `mark`, which was asked for
    /// before the sync began. If it was written since, it stays dirty.
    pub fn flushed(&mut self, idx: u64, mark: u64)
        requires
            old(self).wf(),
        ensures
            final(self).wf(),
            final(self).dir == old(self).dir,
            final(self).meta == old(self).meta,
            final(self).fds == old(self).fds,
            final(self).writes == old(self).writes,
            final(self).dirty@ == synced(old(self).dirty@, idx, mark),
    {
        broadcast use vstd::std_specs::hash::group_hash_axioms;

        if self.sync_mark(idx) == Some(mark) {
            self.dirty.remove(&idx);
        }
    }
}

/// Whether no write has a number beyond how many there were.
pub open spec fn counted(dirty: Map<u64, u64>, writes: u64) -> bool {
    forall|idx: u64| #[trigger] dirty.contains_key(idx) ==> dirty[idx] <= writes
}

/// What is dirty after one more write.
pub open spec fn written(dirty: Map<u64, u64>, writes: u64, idx: u64) -> Map<u64, u64> {
    dirty.insert(idx, (writes + 1) as u64)
}

/// What is dirty after a sync of a chunk that covers its writes up to `mark`.
pub open spec fn synced(dirty: Map<u64, u64>, idx: u64, mark: u64) -> Map<u64, u64> {
    if dirty.contains_key(idx) && dirty[idx] == mark {
        dirty.remove(idx)
    } else {
        dirty
    }
}

/// What a dirty chunk without a file is reported with.
pub fn missing_dirty_chunk(idx: u64) -> (e: Error)
    ensures
        e matches Error::Io(m) && m@ == "dirty chunk "@ + text::decimal(idx as nat)
            + " has no file"@,
{
    Error::Io(text::cat3("dirty chunk ", &text::decimal_string(idx), " has no file"))
}

/// What is left dirty once the given chunks were synced, each with all the
/// writes it had at the start.
pub open spec fn left_dirty(dirty: Map<u64, u64>, items: Seq<u64>) -> Map<u64, u64>
    decreases items.len(),
{
    if items.len() == 0 {
        dirty
    } else {
        synced(left_dirty(dirty, items.drop_last()), items.last(), dirty[items.last()])
    }
}

/// Syncing all dirty chunks, with no write in between, leaves none dirty.
pub proof fn law_flush_clears_dirty(dirty: Map<u64, u64>, items: Seq<u64>)
    requires
        items.to_set() == dirty.dom(),
    ensures
        left_dirty(dirty, items) == Map::<u64, u64>::empty(),
{
    lemma_left_dirty(dirty, items);
    assert forall|x: u64| !left_dirty(dirty, items).contains_key(x) by {
        if dirty.contains_key(x) {
            assert(items.to_set().contains(x));
        }
    }
    assert(left_dirty(dirty, items) =~= Map::<u64, u64>::empty());
}

/// A chunk that is written after its sync began stays dirty: the sync was asked
/// to cover no write beyond those that there were. A flush that follows covers
/// it.
pub proof fn law_write_during_sync_stays_dirty(
    dirty: Map<u64, u64>,
    writes: u64,
    idx: u64,
    mark: u64,
)
    requires
        counted(dirty, writes),
        mark <= writes < u64::MAX,
    ensures
        ({
            let after = synced(written(dirty, writes, idx), idx, mark);
            &&& after.contains_key(idx)
            &&& after[idx] > mark
            &&& counted(after, (writes + 1) as u64)
        }),
{
}

/// A sync of one chunk leaves the others as they are.
pub proof fn law_sync_concerns_one_chunk(dirty: Map<u64, u64>, idx: u64, mark: u64, other: u64)
    requires
        other != idx,
    ensures
        synced(dirty, idx, mark).contains_key(other) == dirty.contains_key(other),
        dirty.contains_key(other) ==> synced(dirty, idx, mark)[other] == dirty[other],
{
}

proof fn lemma_left_dirty(dirty: Map<u64, u64>, items: Seq<u64>)
    ensures
        forall|x: u64| #[trigger]
            left_dirty(dirty, items).contains_key(x) <==> dirty.contains_key(x) && !items.contains(
                x,
            ),
        forall|x: u64| #[trigger]
            left_dirty(dirty, items).contains_key(x) ==> left_dirty(dirty, items)[x] == dirty[x],
    decreases items.len(),
{
    if items.len() > 0 {
        let init = items.drop_last();
        lemma_left_dirty(dirty, init);
        assert forall|x: u64| #[trigger]
            left_dirty(dirty, items).contains_key(x) <==> dirty.contains_key(x) && !items.contains(
                x,
            ) by {
            if items.contains(x) && x != items.last() {
                let i = choose|i: int| 0 <= i < items.len() && items[i] == x;
                assert(init[i] == x);
            }
            if init.contains(x) {
                let i = choose|i: int| 0 <= i < init.len() && init[i] == x;
                assert(items[i] == x);
            }
            if x == items.last() {
                assert(items[items.len() - 1] == x);
            }
            assert(left_dirty(dirty, init).contains_key(x) <==> dirty.contains_key(x)
                && !init.contains(x));
        }
        assert forall|x: u64| #[trigger] left_dirty(dirty, items).contains_key(x) implies left_dirty(
            dirty,
            items,
        )[x] == dirty[x] by {
            assert(left_dirty(dirty, init).contains_key(x));
        }
    }
}

} // verus!
