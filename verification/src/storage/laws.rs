//! What holds of volumes as files on disk: one file per chunk, so that what is
//! read back is what was written, and nothing shared between volumes.

use vstd::prelude::*;

use crate::storage::manager::volume_path;
use crate::storage::volume;
use crate::storage::volume::{
    chunk_content, chunk_file, file_read, file_written, read_segments, segments_from, servable,
    volume_byte, write_segments, Segment, VolumeMeta,
};
use crate::text;

verus! {

// ---------------------------------------------------------------------------
// Names
// ---------------------------------------------------------------------------

/// Whether a text holds no slash, as the name of a file does.
pub open spec fn no_slash(s: Seq<char>) -> bool {
    forall|i: int| 0 <= i < s.len() ==> #[trigger] s[i] != '/'
}

/// What stands before the last slash of a path, and what behind, is told by the
/// path.
pub proof fn lemma_last_component(a: Seq<char>, x: Seq<char>, b: Seq<char>, y: Seq<char>)
    requires
        a + "/"@ + x == b + "/"@ + y,
        no_slash(x),
        no_slash(y),
    ensures
        a == b,
        x == y,
{
    reveal_strlit("/");
    let s = a + "/"@ + x;
    let t = b + "/"@ + y;
    assert("/"@ =~= seq!['/']);
    assert(s.len() == a.len() + 1 + x.len());
    assert(t.len() == b.len() + 1 + y.len());
    assert(s == t);
    assert(s[a.len() as int] == '/');
    assert(t[b.len() as int] == '/');
    if a.len() < b.len() {
        assert(s[b.len() as int] == x[b.len() - a.len() - 1]);
    }
    if b.len() < a.len() {
        assert(t[a.len() as int] == y[a.len() - b.len() - 1]);
    }
    assert(a =~= s.take(a.len() as int));
    assert(b =~= t.take(b.len() as int));
    assert(x =~= s.skip(a.len() as int + 1));
    assert(y =~= t.skip(b.len() as int + 1));
}

/// Decimal notation holds no slash, and tells the number.
proof fn lemma_decimal_is_name(n: nat, m: nat)
    ensures
        no_slash(text::decimal(n)),
        text::decimal(n).len() > 0,
        text::decimal(n) == text::decimal(m) ==> n == m,
{
    text::lemma_decimal_digits(n);
    let max = if n < m {
        m
    } else {
        n
    };
    text::lemma_read_decimal(n, max);
    text::lemma_read_decimal(m, max);
    assert forall|i: int| 0 <= i < text::decimal(n).len() implies #[trigger] text::decimal(n)[i]
        != '/' by {
        assert(text::is_digit(text::decimal(n)[i]));
    }
}

/// Two hexadecimal digits hold no slash, and tell the byte.
proof fn lemma_hex2_is_name(n: nat, m: nat)
    requires
        n < 256,
        m < 256,
    ensures
        no_slash(text::lower_hex2(n)),
        text::lower_hex2(n).len() == 2,
        text::lower_hex2(n) == text::lower_hex2(m) ==> n == m,
{
    let s = text::lower_hex2(n);
    let t = text::lower_hex2(m);
    if s == t {
        assert(s[0] == t[0]);
        assert(s[1] == t[1]);
    }
}

/// A name is appended to a path that does not end in a slash behind one.
proof fn lemma_appended(base: Seq<char>, name: Seq<char>)
    requires
        base.len() > 0,
        base.last() != '/',
        name.len() > 0,
        no_slash(name),
    ensures
        text::path_joined(base, name) == base + "/"@ + name,
        text::path_joined(base, name).len() > 0,
        text::path_joined(base, name).last() != '/',
{
    reveal_strlit("/");
    assert(name[0] != '/');
    assert((base + "/"@ + name).last() == name.last());
    assert(name[name.len() - 1] != '/');
}

/// The directory of a volume's chunks.
pub open spec fn chunks_dir(dir: Seq<char>) -> Seq<char> {
    text::path_joined(dir, "chunks"@)
}

proof fn lemma_chunks_dir(dir: Seq<char>)
    ensures
        chunks_dir(dir).len() > 0,
        chunks_dir(dir).last() != '/',
{
    reveal_strlit("chunks");
    reveal_strlit("/");
    assert("chunks"@.last() == 's');
    assert(chunks_dir(dir).last() == 's');
}

/// A chunk's file lies in the volume's directory of chunks, two levels down by
/// the high and the low byte of the low half of its index, and goes by its
/// index in decimal.
pub proof fn law_chunk_file_layout(dir: Seq<char>, idx: u64)
    ensures
        chunk_file(dir, idx) == text::path_joined(dir, "chunks"@) + "/"@ + text::lower_hex2(
            (idx % 65536 / 256) as nat,
        ) + "/"@ + text::lower_hex2((idx % 256) as nat) + "/"@ + text::decimal(idx as nat),
{
    let hi = (idx / 256 % 256) as nat;
    let lo = (idx % 256) as nat;
    assert(idx % 65536 / 256 == idx / 256 % 256);
    lemma_chunks_dir(dir);
    lemma_hex2_is_name(hi, hi);
    lemma_hex2_is_name(lo, lo);
    lemma_decimal_is_name(idx as nat, idx as nat);
    let a = chunks_dir(dir);
    lemma_appended(a, text::lower_hex2(hi));
    let b = text::path_joined(a, text::lower_hex2(hi));
    lemma_appended(b, text::lower_hex2(lo));
    let c = text::path_joined(b, text::lower_hex2(lo));
    lemma_appended(c, text::decimal(idx as nat));
}

/// Every chunk has a file of its own.
pub proof fn law_one_file_per_chunk(dir: Seq<char>, i: u64, j: u64)
    requires
        i != j,
    ensures
        chunk_file(dir, i) != chunk_file(dir, j),
{
    law_chunk_file_layout(dir, i);
    law_chunk_file_layout(dir, j);
    lemma_decimal_is_name(i as nat, j as nat);
    lemma_decimal_is_name(j as nat, i as nat);
    if chunk_file(dir, i) == chunk_file(dir, j) {
        lemma_last_component(
            chunks_dir(dir) + "/"@ + text::lower_hex2((i % 65536 / 256) as nat) + "/"@
                + text::lower_hex2((i % 256) as nat),
            text::decimal(i as nat),
            chunks_dir(dir) + "/"@ + text::lower_hex2((j % 65536 / 256) as nat) + "/"@
                + text::lower_hex2((j % 256) as nat),
            text::decimal(j as nat),
        );
    }
}

/// Volumes in different directories share no chunk file.
pub proof fn law_volumes_share_no_file(dir: Seq<char>, i: u64, other: Seq<char>, j: u64)
    requires
        dir != other,
        dir.len() > 0,
        dir.last() != '/',
        other.len() > 0,
        other.last() != '/',
    ensures
        chunk_file(dir, i) != chunk_file(other, j),
{
    law_chunk_file_layout(dir, i);
    law_chunk_file_layout(other, j);
    if chunk_file(dir, i) == chunk_file(other, j) {
        let hi = text::lower_hex2((i % 65536 / 256) as nat);
        let lo = text::lower_hex2((i % 256) as nat);
        let hj = text::lower_hex2((j % 65536 / 256) as nat);
        let lj = text::lower_hex2((j % 256) as nat);
        lemma_decimal_is_name(i as nat, j as nat);
        lemma_decimal_is_name(j as nat, i as nat);
        lemma_hex2_is_name((i % 65536 / 256) as nat, (j % 65536 / 256) as nat);
        lemma_hex2_is_name((j % 65536 / 256) as nat, (i % 65536 / 256) as nat);
        lemma_hex2_is_name((i % 256) as nat, (j % 256) as nat);
        lemma_hex2_is_name((j % 256) as nat, (i % 256) as nat);
        lemma_last_component(
            chunks_dir(dir) + "/"@ + hi + "/"@ + lo,
            text::decimal(i as nat),
            chunks_dir(other) + "/"@ + hj + "/"@ + lj,
            text::decimal(j as nat),
        );
        lemma_last_component(
            chunks_dir(dir) + "/"@ + hi,
            lo,
            chunks_dir(other) + "/"@ + hj,
            lj,
        );
        lemma_last_component(chunks_dir(dir), hi, chunks_dir(other), hj);
        reveal_strlit("chunks");
        assert(no_slash("chunks"@));
        lemma_appended(dir, "chunks"@);
        lemma_appended(other, "chunks"@);
        lemma_last_component(dir, "chunks"@, other, "chunks"@);
    }
}

/// Two VMs have volumes in different directories, whatever their projects.
pub proof fn law_volume_directories_differ(
    root: Seq<char>,
    project_id: u64,
    vm_id: Seq<char>,
    other_project: u64,
    other_vm: Seq<char>,
)
    requires
        vm_id.len() > 0,
        no_slash(vm_id),
        other_vm.len() > 0,
        no_slash(other_vm),
        project_id != other_project || vm_id != other_vm,
    ensures
        volume_path(root, project_id, vm_id) != volume_path(root, other_project, other_vm),
        volume_path(root, project_id, vm_id).len() > 0,
        volume_path(root, project_id, vm_id).last() != '/',
{
    reveal_strlit("proj-");
    reveal_strlit("/");
    let n = text::decimal(project_id as nat);
    let m = text::decimal(other_project as nat);
    lemma_decimal_is_name(project_id as nat, other_project as nat);
    lemma_decimal_is_name(other_project as nat, project_id as nat);
    let p = "proj-"@ + n;
    let q = "proj-"@ + m;
    assert forall|i: int| 0 <= i < p.len() implies #[trigger] p[i] != '/' by {
        if i >= 5 {
            assert(p[i] == n[i - 5]);
        }
    }
    assert forall|i: int| 0 <= i < q.len() implies #[trigger] q[i] != '/' by {
        if i >= 5 {
            assert(q[i] == m[i - 5]);
        }
    }
    assert(p[0] == 'p' && q[0] == 'p');
    let a = text::path_joined(root, p);
    let b = text::path_joined(root, q);
    assert(a.last() == p.last() && p[p.len() - 1] != '/');
    assert(b.last() == q.last() && q[q.len() - 1] != '/');
    lemma_appended(a, vm_id);
    lemma_appended(b, other_vm);
    if volume_path(root, project_id, vm_id) == volume_path(root, other_project, other_vm) {
        lemma_last_component(a, vm_id, b, other_vm);
        let lead = if root.len() == 0 || root.last() == '/' {
            root
        } else {
            root + "/"@
        };
        assert(a =~= lead + p);
        assert(b =~= lead + q);
        assert(p =~= a.skip(lead.len() as int));
        assert(q =~= b.skip(lead.len() as int));
        assert(n =~= p.skip(5));
        assert(m =~= q.skip(5));
    }
}

// ---------------------------------------------------------------------------
// Contents
// ---------------------------------------------------------------------------

/// The content of a file; empty if there is none.
pub open spec fn content_at(files: Map<Seq<char>, Seq<u8>>, path: Seq<char>) -> Seq<u8> {
    if files.contains_key(path) {
        files[path]
    } else {
        seq![]
    }
}

/// Carries out the segments of a write on the files of a volume.
pub open spec fn write_files(
    files: Map<Seq<char>, Seq<u8>>,
    dir: Seq<char>,
    segments: Seq<Segment>,
    data: Seq<u8>,
) -> Map<Seq<char>, Seq<u8>>
    decreases segments.len(),
{
    if segments.len() == 0 {
        files
    } else {
        let s = segments[0];
        let path = chunk_file(dir, s.idx);
        let part = data.subrange(s.pos as int, s.pos + s.len);
        write_files(
            files.insert(path, file_written(content_at(files, path), s.in_off as nat, part)),
            dir,
            segments.drop_first(),
            data,
        )
    }
}

/// Carries out the segments of a read on the files of a volume.
pub open spec fn read_files(
    files: Map<Seq<char>, Seq<u8>>,
    dir: Seq<char>,
    segments: Seq<Segment>,
) -> Seq<u8>
    decreases segments.len(),
{
    if segments.len() == 0 {
        seq![]
    } else {
        let s = segments[0];
        file_read(content_at(files, chunk_file(dir, s.idx)), s.in_off as nat, s.len as nat)
            + read_files(files, dir, segments.drop_first())
    }
}

/// The files of a volume, by chunk.
pub open spec fn chunks_in(files: Map<Seq<char>, Seq<u8>>, dir: Seq<char>) -> Map<u64, Seq<u8>> {
    Map::new(
        |idx: u64| files.contains_key(chunk_file(dir, idx)),
        |idx: u64| files[chunk_file(dir, idx)],
    )
}

proof fn lemma_write_files(
    files: Map<Seq<char>, Seq<u8>>,
    dir: Seq<char>,
    segments: Seq<Segment>,
    data: Seq<u8>,
)
    ensures
        chunks_in(write_files(files, dir, segments, data), dir) == write_segments(
            chunks_in(files, dir),
            segments,
            data,
        ),
    decreases segments.len(),
{
    if segments.len() > 0 {
        let s = segments[0];
        let path = chunk_file(dir, s.idx);
        let part = data.subrange(s.pos as int, s.pos + s.len);
        let next = files.insert(
            path,
            file_written(content_at(files, path), s.in_off as nat, part),
        );
        lemma_write_files(next, dir, segments.drop_first(), data);
        let before = chunks_in(files, dir);
        let after = before.insert(
            s.idx,
            file_written(chunk_content(before, s.idx), s.in_off as nat, part),
        );
        assert forall|idx: u64| #[trigger]
            chunks_in(next, dir).contains_key(idx) == after.contains_key(idx) && (
            after.contains_key(idx) ==> chunks_in(next, dir)[idx] == after[idx]) by {
            if idx != s.idx {
                law_one_file_per_chunk(dir, idx, s.idx);
            }
        }
        assert(chunks_in(next, dir) =~= after);
    }
}

proof fn lemma_read_files(
    files: Map<Seq<char>, Seq<u8>>,
    dir: Seq<char>,
    segments: Seq<Segment>,
)
    ensures
        read_files(files, dir, segments) == read_segments(chunks_in(files, dir), segments),
    decreases segments.len(),
{
    if segments.len() > 0 {
        lemma_read_files(files, dir, segments.drop_first());
    }
}

/// On disk, too, a read gives back what was written: a write followed by a read
/// of any range gives the written bytes where the two overlap, and elsewhere
/// what a read gave before.
pub proof fn law_files_give_back_write(
    files: Map<Seq<char>, Seq<u8>>,
    dir: Seq<char>,
    chunk_size: u64,
    off: u64,
    data: Seq<u8>,
    at: u64,
    len: u64,
)
    requires
        chunk_size > 0,
        off + data.len() <= u64::MAX,
        at + len <= u64::MAX,
    ensures
        ({
            let segments = segments_from(off, 0, data.len() as u64, chunk_size);
            let wanted = segments_from(at, 0, len, chunk_size);
            let before = read_files(files, dir, wanted);
            let got = read_files(write_files(files, dir, segments, data), dir, wanted);
            &&& before.len() == len
            &&& got.len() == len
            &&& forall|k: int|
                0 <= k < len ==> #[trigger] got[k] == if off <= at + k < off + data.len() {
                    data[at + k - off]
                } else {
                    before[k]
                }
        }),
{
    let segments = segments_from(off, 0, data.len() as u64, chunk_size);
    let wanted = segments_from(at, 0, len, chunk_size);
    let chunks = chunks_in(files, dir);
    let after = write_files(files, dir, segments, data);
    lemma_write_files(files, dir, segments, data);
    lemma_read_files(after, dir, wanted);
    lemma_read_files(files, dir, wanted);
    volume::law_read_gives_back_write(chunks, chunk_size, off, data, at, len);
    volume::law_read_gives_back_write(chunks, chunk_size, 0, seq![], at, len);
    let before = read_files(files, dir, wanted);
    assert(segments_from(0, 0, 0, chunk_size) =~= seq![]);
    assert(write_segments(chunks, seq![], seq![]) == chunks);
    let got = read_files(after, dir, wanted);
    assert forall|k: int| 0 <= k < len implies #[trigger] got[k] == if off <= at + k < off
        + data.len() {
        data[at + k - off]
    } else {
        before[k]
    } by {
        assert(before[k] == volume_byte(chunks, chunk_size, at + k));
    }
}

/// A write touches no file but those of its own volume: what is read from a
/// volume in another directory stays the same.
pub proof fn law_writes_leave_other_volumes_alone(
    files: Map<Seq<char>, Seq<u8>>,
    dir: Seq<char>,
    other: Seq<char>,
    segments: Seq<Segment>,
    data: Seq<u8>,
    wanted: Seq<Segment>,
)
    requires
        dir != other,
        dir.len() > 0,
        dir.last() != '/',
        other.len() > 0,
        other.last() != '/',
    ensures
        read_files(write_files(files, dir, segments, data), other, wanted) == read_files(
            files,
            other,
            wanted,
        ),
    decreases segments.len(), wanted.len(),
{
    if segments.len() > 0 {
        let s = segments[0];
        let path = chunk_file(dir, s.idx);
        let part = data.subrange(s.pos as int, s.pos + s.len);
        let next = files.insert(
            path,
            file_written(content_at(files, path), s.in_off as nat, part),
        );
        law_writes_leave_other_volumes_alone(
            next,
            dir,
            other,
            segments.drop_first(),
            data,
            wanted,
        );
        lemma_unrelated_file(files, path, next[path], other, wanted, dir, s.idx);
    }
}

proof fn lemma_unrelated_file(
    files: Map<Seq<char>, Seq<u8>>,
    path: Seq<char>,
    content: Seq<u8>,
    other: Seq<char>,
    wanted: Seq<Segment>,
    dir: Seq<char>,
    idx: u64,
)
    requires
        path == chunk_file(dir, idx),
        dir != other,
        dir.len() > 0,
        dir.last() != '/',
        other.len() > 0,
        other.last() != '/',
    ensures
        read_files(files.insert(path, content), other, wanted) == read_files(
            files,
            other,
            wanted,
        ),
    decreases wanted.len(),
{
    if wanted.len() > 0 {
        law_volumes_share_no_file(dir, idx, other, wanted[0].idx);
        lemma_unrelated_file(files, path, content, other, wanted.drop_first(), dir, idx);
    }
}

/// Every request for whole sectors within the volume is served, up to its very
/// last sector, and none that is misaligned or reaches past the end.
pub proof fn law_volume_serves_its_sectors(meta: VolumeMeta, sector: u64, count: u64)
    requires
        sector * 512 <= u64::MAX,
        count * 512 <= u64::MAX,
    ensures
        servable(meta, (sector * 512) as u64, (count * 512) as u64) <==> (sector + count) * 512
            <= meta.size_bytes,
        forall|off: u64, len: u64| #[trigger]
            servable(meta, off, len) ==> exists|s: int, n: int|
                #![trigger s * 512, n * 512]
                off == s * 512 && len == n * 512,
{
    assert forall|off: u64, len: u64| #[trigger] servable(meta, off, len) implies exists|
        s: int,
        n: int,
    |
        #![trigger s * 512, n * 512]
        off == s * 512 && len == n * 512 by {
        let s = off as int / 512;
        let n = len as int / 512;
        assert(off == s * 512 && len == n * 512);
    }
}

} // verus!
