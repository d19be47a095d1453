//! Big-endian numbers and searches in byte strings.

use vstd::prelude::*;

verus! {

/// The four bytes of `n` modulo 2^32, most significant first.
pub open spec fn be32(n: nat) -> Seq<u8> {
    seq![
        (n / 16777216 % 256) as u8,
        (n / 65536 % 256) as u8,
        (n / 256 % 256) as u8,
        (n % 256) as u8,
    ]
}

/// The number that four bytes encode, most significant first.
pub open spec fn be32_value(b: Seq<u8>) -> nat {
    (b[0] * 16777216 + b[1] * 65536 + b[2] * 256 + b[3]) as nat
}

/// A 32-bit number survives being written and read back.
pub proof fn lemma_be32_round_trip(n: nat)
    requires
        n < 0x1_0000_0000,
    ensures
        be32(n).len() == 4,
        be32_value(be32(n)) == n,
{
}

/// Reads the big-endian number at `at`.
pub fn read_be32(b: &[u8], at: usize) -> (n: u32)
    requires
        at + 4 <= b@.len(),
    ensures
        n == be32_value(b@.subrange(at as int, at + 4)),
{
    (b[at] as u32) * 16777216 + (b[at + 1] as u32) * 65536 + (b[at + 2] as u32) * 256 + (
    b[at + 3] as u32)
}

/// Appends the four bytes of `n` modulo 2^32, most significant first.
pub fn push_be32(out: &mut Vec<u8>, n: usize)
    ensures
        final(out)@ == old(out)@ + be32(n as nat),
{
    let a: u8 = (n / 16777216 % 256) as u8;
    let b: u8 = (n / 65536 % 256) as u8;
    let c: u8 = (n / 256 % 256) as u8;
    let d: u8 = (n % 256) as u8;
    out.push(a);
    out.push(b);
    out.push(c);
    out.push(d);
    proof {
        assert(out@ =~= old(out)@ + be32(n as nat));
    }
}

/// The index of the first `x` in `b`; the length if there is none.
pub open spec fn index_of(b: Seq<u8>, x: u8) -> nat
    decreases b.len(),
{
    if b.len() == 0 || b[0] == x {
        0
    } else {
        1 + index_of(b.drop_first(), x)
    }
}

/// `index_of` is where `x` stands first.
pub proof fn lemma_index_of(b: Seq<u8>, x: u8)
    ensures
        index_of(b, x) <= b.len(),
        index_of(b, x) < b.len() ==> b[index_of(b, x) as int] == x,
        forall|j: int| 0 <= j < index_of(b, x) ==> b[j] != x,
    decreases b.len(),
{
    if b.len() > 0 && b[0] != x {
        lemma_index_of(b.drop_first(), x);
        assert forall|j: int| 0 <= j < index_of(b, x) implies b[j] != x by {
            if j > 0 {
                assert(b.drop_first()[j - 1] != x);
            }
        }
    }
}

/// The index of `x` in `a + seq![x] + c` is where `a` ends, if `a` has none.
pub proof fn lemma_index_of_after(a: Seq<u8>, x: u8, c: Seq<u8>)
    requires
        forall|j: int| 0 <= j < a.len() ==> a[j] != x,
    ensures
        index_of(a + seq![x] + c, x) == a.len(),
{
    let b = a + seq![x] + c;
    lemma_index_of(b, x);
    let n = index_of(b, x) as int;
    assert(b[a.len() as int] == x);
    if n < a.len() {
        assert(b[n] == a[n]);
    }
}

/// Finds the first `x` at or behind `from`.
pub fn find_byte(b: &[u8], from: usize, x: u8) -> (at: Option<usize>)
    requires
        from <= b@.len(),
    ensures
        match at {
            Some(i) => from <= i < b@.len() && i - from == index_of(b@.skip(from as int), x),
            None => index_of(b@.skip(from as int), x) == b@.len() - from,
        },
{
    let ghost tail = b@.skip(from as int);
    let mut i: usize = from;
    while i < b.len()
        invariant
            from <= i <= b@.len(),
            tail == b@.skip(from as int),
            forall|j: int| 0 <= j < i - from ==> tail[j] != x,
        decreases b@.len() - i,
    {
        if b[i] == x {
            proof {
                lemma_index_of(tail, x);
                assert(tail[i - from] == x);
            }
            return Some(i);
        }
        i += 1;
    }
    proof {
        lemma_index_of(tail, x);
    }
    None
}

/// The most significant byte comes first: a number that is 256 times another has
/// its bytes one place further to the front, and small numbers have theirs last.
pub proof fn law_most_significant_byte_comes_first(n: nat, low: u8)
    requires
        n < 0x100_0000,
    ensures
        be32(n)[0] == 0,
        be32((n * 256 + low) as nat)[3] == low,
        be32((n * 256 + low) as nat).take(3) == be32(n).skip(1),
        be32_value(seq![0u8, 0u8, 0u8, low]) == low,
{
    assert(be32((n * 256 + low) as nat).take(3) =~= be32(n).skip(1)) by {
        let m = n * 256 + low;
        assert(m / 256 == n);
        assert(m / 65536 == n / 256);
        assert(m / 16777216 == n / 65536);
        assert(m / 256 % 256 == n % 256);
    }
}

} // verus!
