//! Which chunk files are open, and which to close.
//!
//! A generational least-recently-used cache. Dirty files are never closed:
//! closing one would write the chunk back synchronously.

use std::collections::{HashMap, VecDeque};

use vstd::prelude::*;

use crate::storage::volume::FLUSH_THREADS;

verus! {

/// The open chunk files. `order` may hold stale entries: only one whose
/// generation is the file's current one is a candidate for closing.
#[derive(Debug)]
pub struct FdCache {
    pub map: HashMap<u64, u64>,
    pub order: VecDeque<(u64, u64)>,
    pub next_gen: u64,
    pub cap: usize,
}

/// Whether a file may not be closed: it is dirty, or it is the one in use.
pub open spec fn pinned(dirty: Set<u64>, in_use: u64, idx: u64) -> bool {
    dirty.contains(idx) || idx == in_use
}

/// Closes files while more than `cap` are open, least recently used first,
/// looking at no more than `looks` entries of the order. A stale entry is
/// dropped, a pinned file's goes to the back. Gives what is open then, the
/// order, and what was closed.
pub open spec fn evict(
    open: Map<u64, u64>,
    order: Seq<(u64, u64)>,
    dirty: Set<u64>,
    in_use: u64,
    cap: nat,
    looks: nat,
) -> (Map<u64, u64>, Seq<(u64, u64)>, Seq<u64>)
    decreases looks,
{
    if open.len() <= cap || looks == 0 || order.len() == 0 {
        (open, order, seq![])
    } else {
        let (idx, gen) = order[0];
        let rest = order.drop_first();
        if !open.contains_key(idx) || open[idx] != gen {
            evict(open, rest, dirty, in_use, cap, (looks - 1) as nat)
        } else if pinned(dirty, in_use, idx) {
            evict(open, rest.push((idx, gen)), dirty, in_use, cap, (looks - 1) as nat)
        } else {
            let (o, r, closed) = evict(
                open.remove(idx),
                rest,
                dirty,
                in_use,
                cap,
                (looks - 1) as nat,
            );
            (o, r, seq![idx] + closed)
        }
    }
}

/// Whether every open file has an entry in the order with its generation.
pub open spec fn all_listed(open: Map<u64, u64>, order: Seq<(u64, u64)>) -> bool {
    forall|idx: u64| #[trigger] open.contains_key(idx) ==> order.contains((idx, open[idx]))
}

impl FdCache {
    /// Whether every open file can be found for closing, and no generation is
    /// ahead of the counter.
    pub open spec fn wf(self) -> bool {
        &&& all_listed(self.map@, self.order@)
        &&& forall|idx: u64| #[trigger]
            self.map@.contains_key(idx) ==> self.map@[idx] <= self.next_gen
        &&& self.cap <= usize::MAX / 2
    }

    /// An empty cache for `cap` files.
    pub fn new(cap: usize) -> (c: FdCache)
        requires
            cap <= usize::MAX / 2,
        ensures
            c.wf(),
            c.map@ == Map::<u64, u64>::empty(),
            c.order@ == Seq::<(u64, u64)>::empty(),
            c.next_gen == 0,
            c.cap == cap,
    {
        broadcast use vstd::std_specs::hash::group_hash_axioms;

        let map: HashMap<u64, u64> = HashMap::new();
        FdCache { map, order: VecDeque::new(), next_gen: 0, cap }
    }

    /// Marks a file as used, if it is open.
    pub fn touch(&mut self, idx: u64) -> (open: bool)
        requires
            old(self).wf(),
            old(self).next_gen < u64::MAX,
        ensures
            final(self).wf(),
            final(self).cap == old(self).cap,
            open == old(self).map@.contains_key(idx),
            open ==> final(self).next_gen == old(self).next_gen + 1 && final(self).map@ == old(
                self,
            ).map@.insert(idx, final(self).next_gen) && final(self).order@ == old(
                self,
            ).order@.push((idx, final(self).next_gen)),
            !open ==> final(self).map@ == old(self).map@ && final(self).order@ == old(self).order@
                && final(self).next_gen == old(self).next_gen,
    {
        broadcast use vstd::std_specs::hash::group_hash_axioms;

        if !self.map.contains_key(&idx) {
            return false;
        }
        self.next_gen = self.next_gen + 1;
        let gen: u64 = self.next_gen;
        self.map.insert(idx, gen);
        self.order.push_back((idx, gen));
        proof {
            lemma_listed_after_push(old(self).map@, old(self).order@, idx, gen);
        }
        true
    }

    /// Adds a file that was just opened, and returns the files to close so
    /// that the cache keeps to its capacity. If all are pinned, the cache
    /// simply grows.
    pub fn insert(&mut self, idx: u64, dirty: &HashMap<u64, u64>) -> (closed: Vec<u64>)
        requires
            old(self).wf(),
            old(self).next_gen < u64::MAX,
        ensures
            final(self).wf(),
            final(self).cap == old(self).cap,
            final(self).next_gen == old(self).next_gen + 1,
            (final(self).map@, final(self).order@, closed@) == evict(
                old(self).map@.insert(idx, final(self).next_gen),
                old(self).order@.push((idx, final(self).next_gen)),
                dirty@.dom(),
                idx,
                old(self).cap as nat,
                2 * old(self).cap as nat,
            ),
    {
        broadcast use vstd::std_specs::hash::group_hash_axioms;

        self.next_gen = self.next_gen + 1;
        let gen: u64 = self.next_gen;
        self.map.insert(idx, gen);
        self.order.push_back((idx, gen));
        proof {
            lemma_listed_after_push(old(self).map@, old(self).order@, idx, gen);
        }
        let limit: usize = 2 * self.cap;
        let mut looks: usize = 0;
        let mut closed: Vec<u64> = Vec::new();
        let ghost all = evict(
            self.map@,
            self.order@,
            dirty@.dom(),
            idx,
            self.cap as nat,
            limit as nat,
        );
        proof {
            assert(closed@ + all.2 =~= all.2);
        }
        while self.map.len() > self.cap && looks < limit
            invariant
                all_listed(self.map@, self.order@),
                forall|i: u64| #[trigger]
                    self.map@.contains_key(i) ==> self.map@[i] <= self.next_gen,
                self.cap == old(self).cap,
                self.cap <= usize::MAX / 2,
                self.next_gen == gen,
                gen == old(self).next_gen + 1,
                looks <= limit,
                limit == 2 * self.cap,
                ({
                    let rest = evict(
                        self.map@,
                        self.order@,
                        dirty@.dom(),
                        idx,
                        self.cap as nat,
                        (limit - looks) as nat,
                    );
                    all == (rest.0, rest.1, closed@ + rest.2)
                }),
            ensures
                all_listed(self.map@, self.order@),
                forall|i: u64| #[trigger]
                    self.map@.contains_key(i) ==> self.map@[i] <= self.next_gen,
                self.cap == old(self).cap,
                self.next_gen == gen,
                all == (self.map@, self.order@, closed@),
            decreases limit - looks,
        {
            broadcast use vstd::std_specs::hash::group_hash_axioms;

            looks += 1;
            let ghost before_order = self.order@;
            let front = self.order.pop_front();
            match front {
                None => {
                    proof {
                        assert(closed@ + Seq::<u64>::empty() =~= closed@);
                    }
                    break;
                },
                Some((victim, vgen)) => {
                    proof {
                        assert(self.order@ =~= before_order.drop_first());
                    }
                    let current: Option<u64> = match self.map.get(&victim) {
                        Some(g) => Some(*g),
                        None => None,
                    };
                    let stale = match current {
                        Some(g) => g != vgen,
                        None => true,
                    };
                    if stale {
                        proof {
                            lemma_listed_without_stale(self.map@, before_order);
                        }
                    } else if dirty.contains_key(&victim) || victim == idx {
                        self.order.push_back((victim, vgen));
                        proof {
                            lemma_listed_rotated(self.map@, before_order);
                        }
                    } else {
                        let ghost before_map = self.map@;
                        self.map.remove(&victim);
                        let ghost before_closed = closed@;
                        closed.push(victim);
                        proof {
                            lemma_listed_without_closed(before_map, before_order);
                            let rest = evict(
                                self.map@,
                                self.order@,
                                dirty@.dom(),
                                idx,
                                self.cap as nat,
                                (limit - looks) as nat,
                            );
                            assert(before_closed + (seq![victim] + rest.2) =~= closed@ + rest.2);
                        }
                    }
                },
            }
        }
        closed
    }
}

/// Listing a file anew keeps every open file listed.
proof fn lemma_listed_after_push(
    open: Map<u64, u64>,
    order: Seq<(u64, u64)>,
    idx: u64,
    gen: u64,
)
    requires
        all_listed(open, order),
    ensures
        all_listed(open.insert(idx, gen), order.push((idx, gen))),
{
    let open2 = open.insert(idx, gen);
    let order2 = order.push((idx, gen));
    assert forall|i: u64| #[trigger] open2.contains_key(i) implies order2.contains(
        (i, open2[i]),
    ) by {
        if i == idx {
            assert(order2[order.len() as int] == (i, open2[i]));
        } else {
            assert(open.contains_key(i));
            let k = choose|k: int| 0 <= k < order.len() && order[k] == (i, open[i]);
            assert(order2[k] == (i, open2[i]));
        }
    }
}

/// Dropping a stale first entry keeps every open file listed.
proof fn lemma_listed_without_stale(open: Map<u64, u64>, order: Seq<(u64, u64)>)
    requires
        all_listed(open, order),
        order.len() > 0,
        !open.contains_key(order[0].0) || open[order[0].0] != order[0].1,
    ensures
        all_listed(open, order.drop_first()),
{
    let rest = order.drop_first();
    assert forall|i: u64| #[trigger] open.contains_key(i) implies rest.contains((i, open[i])) by {
        let k = choose|k: int| 0 <= k < order.len() && order[k] == (i, open[i]);
        assert(k > 0);
        assert(rest[k - 1] == (i, open[i]));
    }
}

/// Moving the first entry to the back keeps every open file listed.
proof fn lemma_listed_rotated(open: Map<u64, u64>, order: Seq<(u64, u64)>)
    requires
        all_listed(open, order),
        order.len() > 0,
    ensures
        all_listed(open, order.drop_first().push(order[0])),
{
    let turned = order.drop_first().push(order[0]);
    assert forall|i: u64| #[trigger] open.contains_key(i) implies turned.contains(
        (i, open[i]),
    ) by {
        let k = choose|k: int| 0 <= k < order.len() && order[k] == (i, open[i]);
        if k > 0 {
            assert(turned[k - 1] == (i, open[i]));
        } else {
            assert(turned[turned.len() - 1] == (i, open[i]));
        }
    }
}

/// Closing the file of the first entry keeps every open file listed.
proof fn lemma_listed_without_closed(open: Map<u64, u64>, order: Seq<(u64, u64)>)
    requires
        all_listed(open, order),
        order.len() > 0,
    ensures
        all_listed(open.remove(order[0].0), order.drop_first()),
{
    let less = open.remove(order[0].0);
    let rest = order.drop_first();
    assert forall|i: u64| #[trigger] less.contains_key(i) implies rest.contains((i, less[i])) by {
        assert(open.contains_key(i));
        let k = choose|k: int| 0 <= k < order.len() && order[k] == (i, open[i]);
        assert(k > 0);
        assert(rest[k - 1] == (i, less[i]));
    }
}

// ---------------------------------------------------------------------------
// Laws
// ---------------------------------------------------------------------------

/// A dirty file, and the file in use, are never closed; what is closed was
/// open, and everything else stays open.
pub proof fn law_pinned_files_stay_open(
    open: Map<u64, u64>,
    order: Seq<(u64, u64)>,
    dirty: Set<u64>,
    in_use: u64,
    cap: nat,
    looks: nat,
)
    ensures
        ({
            let (o, r, closed) = evict(open, order, dirty, in_use, cap, looks);
            &&& forall|idx: u64| #[trigger]
                open.contains_key(idx) && pinned(dirty, in_use, idx) ==> o.contains_key(idx)
                    && o[idx] == open[idx]
            &&& forall|idx: u64|
                o.contains_key(idx) <==> #[trigger] open.contains_key(idx) && !closed.contains(idx)
            &&& forall|i: int|
                0 <= i < closed.len() ==> open.contains_key(#[trigger] closed[i]) && !pinned(
                    dirty,
                    in_use,
                    closed[i],
                )
        }),
    decreases looks,
{
    if open.len() <= cap || looks == 0 || order.len() == 0 {
    } else {
        let (idx, gen) = order[0];
        let rest = order.drop_first();
        if !open.contains_key(idx) || open[idx] != gen {
            law_pinned_files_stay_open(open, rest, dirty, in_use, cap, (looks - 1) as nat);
        } else if pinned(dirty, in_use, idx) {
            law_pinned_files_stay_open(
                open,
                rest.push((idx, gen)),
                dirty,
                in_use,
                cap,
                (looks - 1) as nat,
            );
        } else {
            let less = open.remove(idx);
            law_pinned_files_stay_open(less, rest, dirty, in_use, cap, (looks - 1) as nat);
            let (o, r, tail) = evict(less, rest, dirty, in_use, cap, (looks - 1) as nat);
            let closed = seq![idx] + tail;
            assert forall|i: u64|
                o.contains_key(i) <==> #[trigger] open.contains_key(i) && !closed.contains(i) by {
                if i == idx {
                    assert(closed[0] == idx);
                    assert(!less.contains_key(i));
                } else {
                    assert(less.contains_key(i) == open.contains_key(i));
                    if tail.contains(i) {
                        let k = choose|k: int| 0 <= k < tail.len() && tail[k] == i;
                        assert(closed[k + 1] == i);
                    }
                    if closed.contains(i) {
                        let k = choose|k: int| 0 <= k < closed.len() && closed[k] == i;
                        assert(tail[k - 1] == i);
                    }
                }
            }
            assert forall|i: int| 0 <= i < closed.len() implies open.contains_key(
                #[trigger] closed[i],
            ) && !pinned(dirty, in_use, closed[i]) by {
                if i > 0 {
                    assert(closed[i] == tail[i - 1]);
                    assert(less.contains_key(tail[i - 1]));
                }
            }
            assert forall|i: u64| #[trigger]
                open.contains_key(i) && pinned(dirty, in_use, i) implies o.contains_key(i) && o[i]
                == open[i] by {
                assert(less.contains_key(i));
            }
        }
    }
}

/// Files are closed only while more than `cap` are open: none if no more are,
/// and never so many that fewer than `cap` are left.
pub proof fn law_no_needless_closing(
    open: Map<u64, u64>,
    order: Seq<(u64, u64)>,
    dirty: Set<u64>,
    in_use: u64,
    cap: nat,
    looks: nat,
)
    requires
        open.dom().finite(),
    ensures
        ({
            let (o, r, closed) = evict(open, order, dirty, in_use, cap, looks);
            &&& open.len() <= cap ==> closed.len() == 0 && o == open
            &&& open.len() > cap ==> o.len() >= cap
            &&& o.len() + closed.len() == open.len()
        }),
    decreases looks,
{
    if open.len() <= cap || looks == 0 || order.len() == 0 {
    } else {
        let (idx, gen) = order[0];
        let rest = order.drop_first();
        if !open.contains_key(idx) || open[idx] != gen {
            law_no_needless_closing(open, rest, dirty, in_use, cap, (looks - 1) as nat);
        } else if pinned(dirty, in_use, idx) {
            law_no_needless_closing(
                open,
                rest.push((idx, gen)),
                dirty,
                in_use,
                cap,
                (looks - 1) as nat,
            );
        } else {
            law_no_needless_closing(
                open.remove(idx),
                rest,
                dirty,
                in_use,
                cap,
                (looks - 1) as nat,
            );
        }
    }
}

/// If only pinned files are open, none is closed.
proof fn lemma_all_pinned(
    open: Map<u64, u64>,
    order: Seq<(u64, u64)>,
    dirty: Set<u64>,
    in_use: u64,
    cap: nat,
    looks: nat,
)
    requires
        forall|idx: u64| #[trigger] open.contains_key(idx) ==> pinned(dirty, in_use, idx),
    ensures
        evict(open, order, dirty, in_use, cap, looks).0 == open,
    decreases looks,
{
    if open.len() <= cap || looks == 0 || order.len() == 0 {
    } else {
        let (idx, gen) = order[0];
        let rest = order.drop_first();
        if !open.contains_key(idx) || open[idx] != gen {
            lemma_all_pinned(open, rest, dirty, in_use, cap, (looks - 1) as nat);
        } else {
            lemma_all_pinned(
                open,
                rest.push((idx, gen)),
                dirty,
                in_use,
                cap,
                (looks - 1) as nat,
            );
        }
    }
}

/// Closing gets through: with `fresh` entries still to be looked at, which
/// list every open file that is not pinned.
proof fn lemma_closing_gets_through(
    open: Map<u64, u64>,
    order: Seq<(u64, u64)>,
    fresh: nat,
    dirty: Set<u64>,
    in_use: u64,
    cap: nat,
    looks: nat,
)
    requires
        fresh <= order.len(),
        fresh <= looks,
        forall|idx: u64| #[trigger]
            open.contains_key(idx) && !pinned(dirty, in_use, idx) ==> order.take(
                fresh as int,
            ).contains((idx, open[idx])),
    ensures
        ({
            let o = evict(open, order, dirty, in_use, cap, looks).0;
            o.len() <= cap || forall|idx: u64| #[trigger]
                o.contains_key(idx) ==> pinned(dirty, in_use, idx)
        }),
    decreases fresh,
{
    if fresh == 0 {
        assert forall|idx: u64| #[trigger] open.contains_key(idx) implies pinned(
            dirty,
            in_use,
            idx,
        ) by {
            if !pinned(dirty, in_use, idx) {
                assert(order.take(0).contains((idx, open[idx])));
            }
        }
        lemma_all_pinned(open, order, dirty, in_use, cap, looks);
    } else if open.len() > cap {
        let (idx, gen) = order[0];
        let rest = order.drop_first();
        let less = (fresh - 1) as nat;
        let head = order.take(fresh as int);
        if !open.contains_key(idx) || open[idx] != gen {
            assert forall|i: u64| #[trigger]
                open.contains_key(i) && !pinned(dirty, in_use, i) implies rest.take(
                less as int,
            ).contains((i, open[i])) by {
                let k = choose|k: int| 0 <= k < head.len() && head[k] == (i, open[i]);
                assert(k > 0);
                assert(rest.take(less as int)[k - 1] == (i, open[i]));
            }
            lemma_closing_gets_through(
                open,
                rest,
                less,
                dirty,
                in_use,
                cap,
                (looks - 1) as nat,
            );
        } else if pinned(dirty, in_use, idx) {
            let turned = rest.push((idx, gen));
            assert forall|i: u64| #[trigger]
                open.contains_key(i) && !pinned(dirty, in_use, i) implies turned.take(
                less as int,
            ).contains((i, open[i])) by {
                let k = choose|k: int| 0 <= k < head.len() && head[k] == (i, open[i]);
                assert(k > 0);
                assert(turned.take(less as int)[k - 1] == (i, open[i]));
            }
            lemma_closing_gets_through(
                open,
                turned,
                less,
                dirty,
                in_use,
                cap,
                (looks - 1) as nat,
            );
        } else {
            let smaller = open.remove(idx);
            assert forall|i: u64| #[trigger]
                smaller.contains_key(i) && !pinned(dirty, in_use, i) implies rest.take(
                less as int,
            ).contains((i, smaller[i])) by {
                assert(open.contains_key(i));
                let k = choose|k: int| 0 <= k < head.len() && head[k] == (i, open[i]);
                assert(k > 0);
                assert(rest.take(less as int)[k - 1] == (i, smaller[i]));
            }
            lemma_closing_gets_through(
                smaller,
                rest,
                less,
                dirty,
                in_use,
                cap,
                (looks - 1) as nat,
            );
        }
    }
}

/// If the order is no longer than what is looked at, the cache ends up within
/// its capacity, unless all that is left open is pinned.
pub proof fn law_cache_keeps_to_capacity(
    open: Map<u64, u64>,
    order: Seq<(u64, u64)>,
    dirty: Set<u64>,
    in_use: u64,
    cap: nat,
    looks: nat,
)
    requires
        all_listed(open, order),
        order.len() <= looks,
    ensures
        ({
            let o = evict(open, order, dirty, in_use, cap, looks).0;
            o.len() <= cap || forall|idx: u64| #[trigger]
                o.contains_key(idx) ==> pinned(dirty, in_use, idx)
        }),
{
    assert(order.take(order.len() as int) =~= order);
    lemma_closing_gets_through(open, order, order.len(), dirty, in_use, cap, looks);
}

// ---------------------------------------------------------------------------
// Flushing
// ---------------------------------------------------------------------------

/// How many groups `n` dirty chunks are flushed in.
pub open spec fn group_count(n: nat) -> nat {
    if n < FLUSH_THREADS {
        n
    } else {
        FLUSH_THREADS as nat
    }
}

/// The items of group `k` when items are dealt out to `count` groups in turn.
pub open spec fn dealt(items: Seq<u64>, count: nat, k: int) -> Seq<u64>
    decreases items.len(),
{
    if items.len() == 0 {
        seq![]
    } else {
        let init = dealt(items.drop_last(), count, k);
        if (items.len() - 1) % count as int == k {
            init.push(items.last())
        } else {
            init
        }
    }
}

/// Deals dirty chunks out to groups, which are then flushed in parallel.
pub fn flush_groups(items: &[u64]) -> (groups: Vec<Vec<u64>>)
    ensures
        groups@.len() == group_count(items@.len()),
        forall|k: int|
            0 <= k < groups@.len() ==> (#[trigger] groups@[k])@ == dealt(
                items@,
                group_count(items@.len()),
                k,
            ),
{
    let n: usize = if items.len() < FLUSH_THREADS {
        items.len()
    } else {
        FLUSH_THREADS
    };
    let mut groups: Vec<Vec<u64>> = Vec::new();
    let mut g: usize = 0;
    while g < n
        invariant
            g <= n,
            groups@.len() == g,
            forall|k: int| 0 <= k < g ==> (#[trigger] groups@[k])@ == Seq::<u64>::empty(),
        decreases n - g,
    {
        groups.push(Vec::new());
        g += 1;
    }
    let mut i: usize = 0;
    proof {
        assert(items@.take(0) =~= seq![]);
    }
    while i < items.len()
        invariant
            n == group_count(items@.len()),
            items@.len() > 0 ==> n > 0,
            i <= items@.len(),
            groups@.len() == n,
            forall|k: int|
                0 <= k < n ==> (#[trigger] groups@[k])@ == dealt(
                    items@.take(i as int),
                    n as nat,
                    k,
                ),
        decreases items@.len() - i,
    {
        let at: usize = i % n;
        let ghost before = groups@;
        groups[at].push(items[i]);
        proof {
            let more = items@.take(i as int + 1);
            assert(more.drop_last() =~= items@.take(i as int));
            assert(more.last() == items@[i as int]);
            assert forall|k: int| 0 <= k < n implies (#[trigger] groups@[k])@ == dealt(
                more,
                n as nat,
                k,
            ) by {
                assert(before[k]@ == dealt(items@.take(i as int), n as nat, k));
                if k != at {
                    assert(groups@[k] == before[k]);
                }
            }
        }
        i += 1;
    }
    proof {
        assert(items@.take(i as int) =~= items@);
    }
    groups
}

/// Every dirty chunk is in a group, and a group holds dirty chunks only.
pub proof fn law_every_dirty_chunk_is_flushed(items: Seq<u64>, count: nat, x: u64)
    requires
        count > 0,
    ensures
        items.contains(x) <==> exists|k: int|
            0 <= k < count && (#[trigger] dealt(items, count, k)).contains(x),
{
    if items.contains(x) {
        let i = choose|i: int| 0 <= i < items.len() && items[i] == x;
        lemma_item_is_dealt(items, count, i);
        assert(dealt(items, count, i % count as int).contains(x));
    }
    if exists|k: int| 0 <= k < count && (#[trigger] dealt(items, count, k)).contains(x) {
        let k = choose|k: int| 0 <= k < count && (#[trigger] dealt(items, count, k)).contains(x);
        lemma_dealt_is_item(items, count, k, x);
    }
}

proof fn lemma_item_is_dealt(items: Seq<u64>, count: nat, i: int)
    requires
        count > 0,
        0 <= i < items.len(),
    ensures
        0 <= i % count as int,
        i % (count as int) < count,
        dealt(items, count, i % count as int).contains(items[i]),
    decreases items.len(),
{
    let k = i % count as int;
    vstd::arithmetic::div_mod::lemma_mod_bound(i, count as int);
    let init = items.drop_last();
    let got = dealt(items, count, k);
    if i == items.len() - 1 {
        assert(got[got.len() - 1] == items[i]);
    } else {
        lemma_item_is_dealt(init, count, i);
        let part = dealt(init, count, k);
        let j = choose|j: int| 0 <= j < part.len() && part[j] == init[i];
        assert(got[j] == items[i]);
    }
}

proof fn lemma_dealt_is_item(items: Seq<u64>, count: nat, k: int, x: u64)
    requires
        dealt(items, count, k).contains(x),
    ensures
        items.contains(x),
    decreases items.len(),
{
    let got = dealt(items, count, k);
    let j = choose|j: int| 0 <= j < got.len() && got[j] == x;
    if items.len() > 0 {
        let init = items.drop_last();
        let part = dealt(init, count, k);
        if j < part.len() {
            assert(part[j] == x);
            lemma_dealt_is_item(init, count, k, x);
            let i = choose|i: int| 0 <= i < init.len() && init[i] == x;
            assert(items[i] == x);
        } else {
            assert(items[items.len() - 1] == x);
        }
    }
}

} // verus!
