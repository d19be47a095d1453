//! Random names.

use rand::seq::IndexedRandom;
use vstd::prelude::*;
use vstd::utf8::*;

use crate::text;

verus! {

/// The characters random names are made of: none that is easily mistaken for
/// another.
pub const ID_CHARSET: &'static str = "abcdefghjkmnpqrstuvwxyz23456789";

/// How many random characters a name has.
pub const ID_LEN: usize = 6;

/// Calls `rand`'s `IndexedRandom::choose` with the thread's generator: some
/// element of a slice, if it has any. Which one is left to chance.
#[verifier::external_body]
fn choose_byte(charset: &[u8]) -> (b: Option<u8>)
    ensures
        b is Some <==> charset@.len() > 0,
        b is Some ==> charset@.contains(b->0),
{
    charset.choose(&mut rand::rng()).copied()
}

/// Whether a text could be the random part of a name.
pub open spec fn id_suffix(s: Seq<char>) -> bool {
    s.len() == ID_LEN && forall|i: int| 0 <= i < s.len() ==> ID_CHARSET@.contains(#[trigger] s[i])
}

/// A name made of a prefix and a random part.
pub fn compose_id(prefix: &str, suffix: &str) -> (id: String)
    ensures
        id@ == prefix@ + "-"@ + suffix@,
{
    text::cat3(prefix, "-", suffix)
}

/// Generates a random name like `<prefix>-x7k2pq`.
pub fn random_id(prefix: &str) -> (id: String)
    ensures
        exists|suffix: Seq<char>| id_suffix(suffix) && id@ == prefix@ + "-"@ + suffix,
{
    let charset = ID_CHARSET.as_bytes();
    proof {
        lemma_charset_ascii();
    }
    let mut suffix = String::new();
    let mut i: usize = 0;
    while i < ID_LEN
        invariant
            i <= ID_LEN,
            charset@ == encode_utf8(ID_CHARSET@),
            charset@.len() == ID_CHARSET@.len(),
            ID_CHARSET@.len() > 0,
            forall|k: int|
                0 <= k < charset@.len() ==> (#[trigger] charset@[k]) as char == ID_CHARSET@[k],
            suffix@.len() == i,
            forall|k: int| 0 <= k < i ==> ID_CHARSET@.contains(#[trigger] suffix@[k]),
        decreases ID_LEN - i,
    {
        let picked = choose_byte(charset);
        match picked {
            Some(b) => {
                proof {
                    let k = choose|k: int| 0 <= k < charset@.len() && charset@[k] == b;
                    assert((b as char) == ID_CHARSET@[k]);
                }
                suffix.push(b as char);
            },
            None => {
                proof {
                    assert(false);
                }
            },
        }
        i += 1;
    }
    proof {
        assert(id_suffix(suffix@));
    }
    compose_id(prefix, &suffix)
}

/// An ASCII character is the one its byte stands for.
proof fn lemma_ascii_char(c: char)
    requires
        c <= '\u{7f}',
    ensures
        (c as u8) as char == c,
{
}

/// The characters of random names are ASCII: one byte each.
proof fn lemma_charset_ascii()
    ensures
        encode_utf8(ID_CHARSET@).len() == ID_CHARSET@.len(),
        ID_CHARSET@.len() > 0,
        forall|k: int|
            0 <= k < ID_CHARSET@.len() ==> (#[trigger] encode_utf8(ID_CHARSET@)[k]) as char
                == ID_CHARSET@[k],
{
    reveal_strlit("abcdefghjkmnpqrstuvwxyz23456789");
    assert(is_ascii_chars(ID_CHARSET@));
    is_ascii_chars_encode_utf8(ID_CHARSET@);
    assert forall|k: int| 0 <= k < ID_CHARSET@.len() implies (#[trigger] encode_utf8(
        ID_CHARSET@,
    )[k]) as char == ID_CHARSET@[k] by {
        let c = ID_CHARSET@[k];
        lemma_ascii_char(c);
        assert(c as u8 == encode_utf8(ID_CHARSET@)[k]);
    }
}

} // verus!
