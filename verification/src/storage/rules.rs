//! What volumes are made with, how their workers are run, and which files are
//! kept open.

use vstd::arithmetic::power2::is_pow2;
use vstd::prelude::*;

use crate::storage::cache::{all_listed, evict, group_count};
use crate::storage::manager::{project_dirs, respawned, WorkerEntry};
use crate::storage::volume::{allowed_chunk_kb, good_chunk_size, good_volume_size};
use crate::storage::worker::worker_args;
use crate::text;

verus! {

// ---------------------------------------------------------------------------
// Geometry
// ---------------------------------------------------------------------------

/// Every chunk size that a request may ask for can be used, and so can every
/// volume of whole MiB: what the API takes, a worker can create.
pub proof fn law_requested_geometry_can_be_used(kb: u32, mb: u32)
    requires
        allowed_chunk_kb(kb),
        mb > 0,
    ensures
        good_chunk_size((kb * 1024) as u64),
        good_volume_size((mb * 1048576) as u64),
{
    reveal_with_fuel(is_pow2, 24);
    assert((mb * 1048576) % 512 == 0) by (nonlinear_arith);
}

/// Chunks are a power of two of at least 4 KiB, and a volume is at least one
/// sector of 512 bytes, and whole ones.
pub proof fn law_geometry_that_can_be_used(chunk_size: u64, size_bytes: u64)
    ensures
        good_chunk_size(chunk_size) <==> chunk_size >= 4 * 1024 && exists|e: nat|
            chunk_size == #[trigger] vstd::arithmetic::power2::pow2(e),
        good_volume_size(size_bytes) <==> exists|sectors: int|
            #![trigger sectors * 512]
            sectors > 0 && size_bytes == sectors * 512,
{
    vstd::arithmetic::power2::is_pow2_equiv(chunk_size as int);
    if is_pow2(chunk_size as int) {
        let e = choose|e: nat| vstd::arithmetic::power::pow(2, e) == chunk_size;
        vstd::arithmetic::power2::lemma_pow2(e);
        assert(chunk_size == vstd::arithmetic::power2::pow2(e));
    }
    if exists|e: nat| chunk_size == #[trigger] vstd::arithmetic::power2::pow2(e) {
        let e = choose|e: nat| chunk_size == #[trigger] vstd::arithmetic::power2::pow2(e);
        vstd::arithmetic::power2::lemma_pow2(e);
        assert(vstd::arithmetic::power::pow(2, e) == chunk_size);
    }
    if good_volume_size(size_bytes) {
        let sectors = size_bytes as int / 512;
        assert(sectors > 0 && size_bytes == sectors * 512);
    }
}

// ---------------------------------------------------------------------------
// Workers
// ---------------------------------------------------------------------------

/// Whether a command line gives an option a value.
pub open spec fn gives(args: Seq<Seq<char>>, option: Seq<char>, value: Seq<char>) -> bool {
    exists|i: int|
        0 <= i < args.len() - 1 && #[trigger] args[i] == option && args[i + 1] == value
}

proof fn lemma_gives(args: Seq<Seq<char>>, i: int)
    requires
        0 <= i < args.len() - 1,
    ensures
        gives(args, args[i], args[i + 1]),
{
}

/// A worker is told its volume's directory, its device, its queues and their
/// depth; a new volume's its size and its chunk size, if one was asked for; and
/// one that reattaches that it is to recover.
pub proof fn law_worker_is_told_its_volume(
    dir: Seq<char>,
    size_mb: Option<u64>,
    chunk_kb: Option<u32>,
    recover: bool,
    dev_id: i32,
    queues: u16,
    depth: u16,
)
    ensures
        ({
            let args = worker_args(dir, size_mb, chunk_kb, recover, dev_id, queues, depth);
            &&& args is Some <==> recover || size_mb is Some
            &&& args is Some ==> {
                let a = args->0;
                &&& a[0] == "ublk-worker"@
                &&& gives(a, "--dir"@, dir)
                &&& gives(a, "-n"@, text::signed_decimal(dev_id as int))
                &&& gives(a, "--queues"@, text::decimal(queues as nat))
                &&& gives(a, "--depth"@, text::decimal(depth as nat))
                &&& recover ==> a.len() == 10 && a.last() == "--recover"@
                &&& !recover ==> gives(a, "--size-mb"@, text::decimal(size_mb->0 as nat))
                &&& !recover && chunk_kb is Some ==> a.len() == 13 && gives(
                    a,
                    "--chunk-kb"@,
                    text::decimal(chunk_kb->0 as nat),
                )
                &&& !recover && chunk_kb is None ==> a.len() == 11
            }
        }),
{
    let args = worker_args(dir, size_mb, chunk_kb, recover, dev_id, queues, depth);
    if args is Some {
        let a = args->0;
        lemma_gives(a, 1);
        lemma_gives(a, 3);
        lemma_gives(a, 5);
        lemma_gives(a, 7);
        if !recover {
            lemma_gives(a, 9);
            if chunk_kb is Some {
                lemma_gives(a, 11);
            }
        }
    }
}

/// Respawning a worker changes its process and counts; the device and the
/// directory, and so the data, stay those of the VM.
pub proof fn law_respawned_worker_serves_same_volume(e: WorkerEntry, pid: Option<u32>)
    ensures
        respawned(e, pid).vm_id == e.vm_id,
        respawned(e, pid).dev_id == e.dev_id,
        respawned(e, pid).volume_dir == e.volume_dir,
        pid is Some ==> respawned(e, pid).pid == pid->0,
        pid is None ==> respawned(e, pid).pid == e.pid,
        e.respawns < u32::MAX ==> respawned(e, pid).respawns == e.respawns + 1,
{
}

/// Exactly the directories of projects are taken for those of volumes.
pub proof fn law_project_directories_are_found(names: Seq<Seq<char>>, name: Seq<char>)
    ensures
        project_dirs(names).contains(name) <==> names.contains(name) && text::has_prefix(
            name,
            "proj-"@,
        ),
    decreases names.len(),
{
    if names.len() > 0 {
        let rest = names.drop_last();
        law_project_directories_are_found(rest, name);
        assert(names =~= rest.push(names.last()));
        vstd::seq_lib::lemma_seq_contains_after_push(rest, names.last(), name);
        vstd::seq_lib::lemma_seq_contains_after_push(project_dirs(rest), names.last(), name);
    }
}

// ---------------------------------------------------------------------------
// Open files
// ---------------------------------------------------------------------------

/// Whether an order lists uses from the oldest to the latest.
pub open spec fn by_age(order: Seq<(u64, u64)>) -> bool {
    forall|i: int, j: int|
        0 <= i < j < order.len() ==> (#[trigger] order[i]).1 < (#[trigger] order[j]).1
}

/// Whether no file that is closed was used later than one that stays open.
pub open spec fn oldest_closed(
    open: Map<u64, u64>,
    kept: Map<u64, u64>,
    closed: Seq<u64>,
) -> bool {
    forall|i: int, idx: u64|
        0 <= i < closed.len() && #[trigger] kept.contains_key(idx) ==> open.contains_key(
            #[trigger] closed[i],
        ) && open[closed[i]] < open[idx]
}

/// What was used least recently is closed first: no file that is closed was used
/// later than one that stays open.
pub proof fn law_least_recently_used_are_closed(
    open: Map<u64, u64>,
    order: Seq<(u64, u64)>,
    in_use: u64,
    cap: nat,
    looks: nat,
)
    requires
        all_listed(open, order),
        by_age(order),
        open.contains_key(in_use),
        forall|i: int| 0 <= i < order.len() ==> (#[trigger] order[i]).1 <= open[in_use],
    ensures
        ({
            let (kept, _, closed) = evict(open, order, Set::empty(), in_use, cap, looks);
            oldest_closed(open, kept, closed)
        }),
    decreases looks,
{
    if open.len() > cap && looks > 0 && order.len() > 0 {
        let (idx, gen) = order[0];
        let rest = order.drop_first();
        assert forall|i: int, j: int| 0 <= i < j < rest.len() implies (#[trigger] rest[i]).1 < (
        #[trigger] rest[j]).1 by {
            assert(order[i + 1].1 < order[j + 1].1);
        }
        assert forall|i: int| 0 <= i < rest.len() implies (#[trigger] rest[i]).1
            <= open[in_use] by {
            assert(order[i + 1].1 <= open[in_use]);
        }
        assert forall|k: u64| #[trigger] open.contains_key(k) && !(k == idx && open[k]
            == gen) implies rest.contains((k, open[k])) by {
            let at = choose|at: int| 0 <= at < order.len() && order[at] == (k, open[k]);
            assert(at != 0);
            assert(rest[at - 1] == (k, open[k]));
        }
        if !open.contains_key(idx) || open[idx] != gen {
            law_least_recently_used_are_closed(open, rest, in_use, cap, (looks - 1) as nat);
        } else if idx == in_use {
            if rest.len() > 0 {
                assert(order[0].1 < order[1].1);
                assert(order[1].1 <= open[in_use]);
            }
            assert(rest.push((idx, gen)) =~= order);
            assert(crate::storage::cache::pinned(Set::empty(), in_use, idx));
            law_least_recently_used_are_closed(open, order, in_use, cap, (looks - 1) as nat);
        } else {
            let less = open.remove(idx);
            assert(all_listed(less, rest));
            law_least_recently_used_are_closed(less, rest, in_use, cap, (looks - 1) as nat);
            let (kept, _, closed) = evict(
                less,
                rest,
                Set::empty(),
                in_use,
                cap,
                (looks - 1) as nat,
            );
            crate::storage::cache::law_pinned_files_stay_open(
                less,
                rest,
                Set::empty(),
                in_use,
                cap,
                (looks - 1) as nat,
            );
            let all = seq![idx] + closed;
            let whole = evict(open, order, Set::empty(), in_use, cap, looks);
            assert(!crate::storage::cache::pinned(Set::empty(), in_use, idx));
            assert(whole.0 == kept && whole.2 == all);
            assert forall|i: int, k: u64|
                0 <= i < all.len() && #[trigger] kept.contains_key(k) implies open.contains_key(
                #[trigger] all[i],
            ) && open[all[i]] < open[k] by {
                assert(less.contains_key(k));
                let at = choose|at: int| 0 <= at < rest.len() && rest[at] == (k, less[k]);
                assert(order[0].1 < order[at + 1].1);
                if i > 0 {
                    assert(all[i] == closed[i - 1]);
                    assert(less.contains_key(closed[i - 1]));
                    assert(less[closed[i - 1]] < less[k]);
                }
            }
            assert(oldest_closed(open, whole.0, whole.2));
        }
    }
}

/// There is something to work on in every group of a flush, and no more groups
/// than can be worked on at once.
pub proof fn law_flush_groups_are_few(n: nat)
    ensures
        group_count(n) <= n,
        group_count(n) <= 8,
        n > 0 ==> group_count(n) > 0,
        n >= 8 ==> group_count(n) == 8,
{
}

} // verus!
