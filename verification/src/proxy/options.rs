//! The `options` startup parameter of a libpq client, which is where a stock
//! client can carry a proxy token.

use vstd::prelude::*;
use vstd::utf8::*;

use crate::text;

verus! {

/// Startup parameter (and server setting) carrying the proxy token.
pub const TOKEN_PARAM: &'static str = "tikovm_token";

/// [`TOKEN_PARAM`] with the `=` suffix, for matching inside the options text.
pub const TOKEN_PARAM_EQ: &'static str = "tikovm_token=";

/// Whether `b` separates words: space, tab, line feed, form feed or return.
pub open spec fn is_space(b: u8) -> bool {
    b == 32 || b == 9 || b == 10 || b == 12 || b == 13
}

/// Where the word that goes on at `i` ends, and its unescaped bytes from `i`.
/// `squote` and `dquote` say which quote is open: white space ends the word
/// outside quotes only, a quote of the other kind is literal, and a backslash
/// makes the next byte literal except inside single quotes.
pub open spec fn scan_word(b: Seq<u8>, i: int, squote: bool, dquote: bool) -> (int, Seq<u8>)
    decreases b.len() - i,
{
    if i >= b.len() {
        (i, seq![])
    } else if !squote && !dquote && is_space(b[i]) {
        (i, seq![])
    } else if b[i] == 92 && !squote && i + 1 < b.len() {
        let (end, rest) = scan_word(b, i + 2, squote, dquote);
        (end, seq![b[i + 1]] + rest)
    } else if b[i] == 39 && !dquote {
        scan_word(b, i + 1, !squote, dquote)
    } else if b[i] == 34 && !squote {
        scan_word(b, i + 1, squote, !dquote)
    } else {
        let (end, rest) = scan_word(b, i + 1, squote, dquote);
        (end, seq![b[i]] + rest)
    }
}

/// Scanning stays inside the text, and ends at its end or at white space.
pub proof fn lemma_scan_word_end(b: Seq<u8>, i: int, squote: bool, dquote: bool)
    requires
        0 <= i <= b.len(),
    ensures
        i <= scan_word(b, i, squote, dquote).0 <= b.len(),
        i < b.len() && !is_space(b[i]) ==> i < scan_word(b, i, squote, dquote).0,
        scan_word(b, i, squote, dquote).0 < b.len() ==> is_space(
            b[scan_word(b, i, squote, dquote).0],
        ),
    decreases b.len() - i,
{
    if i >= b.len() {
    } else if !squote && !dquote && is_space(b[i]) {
    } else if b[i] == 92 && !squote && i + 1 < b.len() {
        lemma_scan_word_end(b, i + 2, squote, dquote);
    } else if b[i] == 39 && !dquote {
        lemma_scan_word_end(b, i + 1, !squote, dquote);
    } else if b[i] == 34 && !squote {
        lemma_scan_word_end(b, i + 1, squote, !dquote);
    } else {
        lemma_scan_word_end(b, i + 1, squote, dquote);
    }
}

/// The words of `b` from `i` on: where each starts and ends in `b`, and its
/// unescaped bytes.
pub open spec fn words_from(b: Seq<u8>, i: int) -> Seq<(int, int, Seq<u8>)>
    decreases b.len() - i,
{
    if i < 0 || i >= b.len() {
        seq![]
    } else if is_space(b[i]) {
        words_from(b, i + 1)
    } else {
        proof {
            lemma_scan_word_end(b, i, false, false);
        }
        let (end, word) = scan_word(b, i, false, false);
        seq![(i, end, word)] + words_from(b, end)
    }
}

/// A word as callers see it: its span and its text.
pub open spec fn word_view(w: (usize, usize, String)) -> (int, int, Seq<char>) {
    (w.0 as int, w.1 as int, w.2@)
}

/// The words of an options text: spans in its UTF-8 bytes and unescaped text.
pub open spec fn words_of(options: Seq<char>) -> Seq<(int, int, Seq<char>)> {
    words_from(encode_utf8(options), 0).map_values(
        |w: (int, int, Seq<u8>)| (w.0, w.1, text::utf8_lossy(w.2)),
    )
}

fn byte_is_space(b: u8) -> (r: bool)
    ensures
        r == is_space(b),
{
    b == 32 || b == 9 || b == 10 || b == 12 || b == 13
}

/// Splits a libpq `options` value into words the way the postmaster does:
/// white space separates, `\` escapes the next byte, single and double quotes
/// group. Returns each word's span in the original text (quoting intact) plus
/// its unescaped text for comparison.
pub fn split_opts(options: &str) -> (words: Vec<(usize, usize, String)>)
    ensures
        words@.map_values(|w: (usize, usize, String)| word_view(w)) == words_of(options@),
{
    let bytes = options.as_bytes();
    let mut words: Vec<(usize, usize, String)> = Vec::new();
    let mut i: usize = 0;
    let ghost b = encode_utf8(options@);
    let ghost f = |w: (int, int, Seq<u8>)| (w.0, w.1, text::utf8_lossy(w.2));
    let ghost g = |w: (usize, usize, String)| word_view(w);
    proof {
        assert(words@.map_values(g) + words_from(b, 0).map_values(f) =~= words_from(
            b,
            0,
        ).map_values(f));
    }
    while i < bytes.len()
        invariant
            bytes@ == b,
            b == encode_utf8(options@),
            i <= b.len(),
            f == (|w: (int, int, Seq<u8>)| (w.0, w.1, text::utf8_lossy(w.2))),
            g == (|w: (usize, usize, String)| word_view(w)),
            words@.map_values(g) + words_from(b, i as int).map_values(f) == words_from(
                b,
                0,
            ).map_values(f),
        decreases b.len() - i,
    {
        if byte_is_space(bytes[i]) {
            i += 1;
            continue;
        }
        let start: usize = i;
        let mut word: Vec<u8> = Vec::new();
        let mut squote = false;
        let mut dquote = false;
        let ghost whole = scan_word(b, start as int, false, false);
        proof {
            lemma_scan_word_end(b, start as int, false, false);
            assert(word@ + whole.1 =~= whole.1);
        }
        while i < bytes.len() && !(!squote && !dquote && byte_is_space(bytes[i]))
            invariant
                bytes@ == b,
                start <= i <= b.len(),
                whole == scan_word(b, start as int, false, false),
                whole.0 == scan_word(b, i as int, squote, dquote).0,
                whole.1 == word@ + scan_word(b, i as int, squote, dquote).1,
            decreases b.len() - i,
        {
            let c: u8 = bytes[i];
            let ghost before = word@;
            if c == 92 && !squote && i + 1 < bytes.len() {
                word.push(bytes[i + 1]);
                proof {
                    let t = scan_word(b, i as int + 2, squote, dquote).1;
                    assert(before + (seq![b[i as int + 1]] + t) =~= word@ + t);
                }
                i += 2;
            } else if c == 39 && !dquote {
                squote = !squote;
                i += 1;
            } else if c == 34 && !squote {
                dquote = !dquote;
                i += 1;
            } else {
                word.push(c);
                proof {
                    let t = scan_word(b, i as int + 1, squote, dquote).1;
                    assert(before + (seq![b[i as int]] + t) =~= word@ + t);
                }
                i += 1;
            }
        }
        proof {
            assert(whole.1 =~= word@);
            assert(whole.0 == i);
        }
        let ghost done = words@;
        words.push((start, i, text::from_utf8_lossy(&word)));
        proof {
            let rest = words_from(b, i as int);
            let item = (start as int, i as int, whole.1);
            assert(words_from(b, start as int) == seq![item] + rest);
            assert((seq![item] + rest).map_values(f) =~= seq![f(item)] + rest.map_values(f));
            assert(words@.map_values(g) =~= done.map_values(g).push(g(words@.last())));
            assert(g(words@.last()) == f(item));
            assert(done.map_values(g) + (seq![f(item)] + rest.map_values(f)) =~= words@.map_values(
                g,
            ) + rest.map_values(f));
        }
    }
    proof {
        assert(words@.map_values(g) + words_from(b, i as int).map_values(f) =~= words@.map_values(
            g,
        ));
        assert(words@.map_values(g) =~= words_of(options@));
    }
    words
}

/// What a token setting at word `i` sets the token to, and whether it takes
/// the next word too: `-c` followed by `tikovm_token=<value>`, or both glued
/// into one word.
pub open spec fn setting_at(w: Seq<(int, int, Seq<char>)>, i: int) -> Option<(Seq<char>, bool)> {
    if w[i].2 == "-c"@ && i + 1 < w.len() && text::has_prefix(w[i + 1].2, TOKEN_PARAM_EQ@) {
        Some((w[i + 1].2.skip(TOKEN_PARAM_EQ@.len() as int), true))
    } else if text::has_prefix(w[i].2, "-c"@ + TOKEN_PARAM_EQ@) {
        Some((w[i].2.skip(("-c"@ + TOKEN_PARAM_EQ@).len() as int), false))
    } else {
        None
    }
}

/// The value of the first token setting from word `i` on.
pub open spec fn first_setting(w: Seq<(int, int, Seq<char>)>, i: int) -> Option<Seq<char>>
    decreases w.len() - i,
{
    if i < 0 || i >= w.len() {
        None
    } else {
        match setting_at(w, i) {
            Some((value, _)) => Some(value),
            None => first_setting(w, i + 1),
        }
    }
}

/// The words from `i` on that no token setting takes, by index.
pub open spec fn kept_words(w: Seq<(int, int, Seq<char>)>, i: int) -> Seq<int>
    decreases w.len() - i,
{
    if i < 0 || i >= w.len() {
        seq![]
    } else {
        match setting_at(w, i) {
            Some((_, pair)) => kept_words(w, if pair { i + 2 } else { i + 1 }),
            None => seq![i] + kept_words(w, i + 1),
        }
    }
}

/// The original bytes of the words `kept`, joined with single spaces.
pub open spec fn join_words(b: Seq<u8>, w: Seq<(int, int, Seq<char>)>, kept: Seq<int>) -> Seq<u8>
    decreases kept.len(),
{
    if kept.len() == 0 {
        seq![]
    } else {
        let word = b.subrange(w[kept.last()].0, w[kept.last()].1);
        if kept.len() == 1 {
            word
        } else {
            join_words(b, w, kept.drop_last()).push(32) + word
        }
    }
}

/// The token in an options text, if it sets one.
pub open spec fn options_token(options: Seq<char>) -> Option<Seq<char>> {
    first_setting(words_of(options), 0)
}

/// The options text without its token settings; unchanged if it has none.
pub open spec fn options_rest(options: Seq<char>) -> Seq<char> {
    let w = words_of(options);
    if options_token(options) is None {
        options
    } else {
        decode_utf8(join_words(encode_utf8(options), w, kept_words(w, 0)))
    }
}

/// The position behind an ASCII byte is a character boundary.
proof fn lemma_boundary_after_ascii(b: Seq<u8>, i: int)
    requires
        valid_utf8(b),
        0 <= i < b.len(),
        b[i] < 128,
    ensures
        is_char_boundary(b, i + 1),
{
    is_char_boundary_iff_not_is_continuation_byte(b, i);
    valid_utf8_split(b, i);
    let tail = b.subrange(i, b.len() as int);
    assert(valid_first_scalar(tail));
    let rest = pop_first_scalar(tail);
    assert(rest =~= b.subrange(i + 1, b.len() as int));
    if i + 1 < b.len() {
        assert(valid_utf8(rest)) by {
            assert(valid_utf8(tail));
        }
        assert(valid_first_scalar(rest));
        assert(rest[0] == b[i + 1]);
        is_char_boundary_iff_not_is_continuation_byte(b, i + 1);
    } else {
        is_char_boundary_start_end_of_seq(b);
    }
}

/// Every word starts and ends at a character boundary.
proof fn lemma_words_on_boundaries(b: Seq<u8>, i: int, k: int)
    requires
        valid_utf8(b),
        0 <= i <= b.len(),
        is_char_boundary(b, i),
        0 <= k < words_from(b, i).len(),
    ensures
        0 <= words_from(b, i)[k].0 <= words_from(b, i)[k].1 <= b.len(),
        is_char_boundary(b, words_from(b, i)[k].0),
        is_char_boundary(b, words_from(b, i)[k].1),
    decreases b.len() - i,
{
    if is_space(b[i]) {
        lemma_boundary_after_ascii(b, i);
        lemma_words_on_boundaries(b, i + 1, k);
    } else {
        lemma_scan_word_end(b, i, false, false);
        let end = scan_word(b, i, false, false).0;
        if end < b.len() {
            is_char_boundary_iff_not_is_continuation_byte(b, end);
        } else {
            is_char_boundary_start_end_of_seq(b);
        }
        if k > 0 {
            lemma_words_on_boundaries(b, end, k - 1);
        }
    }
}

/// The bytes between two character boundaries are valid UTF-8.
proof fn lemma_span_valid(b: Seq<u8>, from: int, to: int)
    requires
        valid_utf8(b),
        0 <= from <= to <= b.len(),
        is_char_boundary(b, from),
        is_char_boundary(b, to),
    ensures
        valid_utf8(b.subrange(from, to)),
{
    valid_utf8_split(b, to);
    let head = b.subrange(0, to);
    if from < to {
        is_char_boundary_iff_not_is_continuation_byte(b, from);
        is_char_boundary_iff_not_is_continuation_byte(head, from);
    } else {
        is_char_boundary_start_end_of_seq(head);
    }
    valid_utf8_split(head, from);
    assert(head.subrange(from, head.len() as int) =~= b.subrange(from, to));
}

/// What is left behind two prefixes in a row is what is left behind both at once.
proof fn lemma_prefix_twice(s: Seq<char>, a: Seq<char>, b: Seq<char>)
    ensures
        text::has_prefix(s, a + b) <==> text::has_prefix(s, a) && text::has_prefix(
            s.skip(a.len() as int),
            b,
        ),
        text::has_prefix(s, a + b) ==> s.skip((a + b).len() as int) == s.skip(
            a.len() as int,
        ).skip(b.len() as int),
{
    let n = a.len() as int;
    let m = b.len() as int;
    if text::has_prefix(s, a + b) {
        assert(s.take(n) =~= (a + b).take(n));
        assert((a + b).take(n) =~= a);
        assert(s.skip(n).take(m) =~= s.take(n + m).skip(n));
        assert((a + b).skip(n) =~= b);
        assert(s.skip((a + b).len() as int) =~= s.skip(n).skip(m));
    }
    if text::has_prefix(s, a) && text::has_prefix(s.skip(n), b) {
        assert(s.take(n + m) =~= s.take(n) + s.skip(n).take(m));
    }
}

/// What the token setting at word `i` sets the token to, and whether it takes
/// the next word too.
fn find_setting(words: &Vec<(usize, usize, String)>, i: usize) -> (found: Option<(String, bool)>)
    requires
        i < words@.len(),
    ensures
        ({
            let w = words@.map_values(|w: (usize, usize, String)| word_view(w));
            match found {
                None => setting_at(w, i as int) is None,
                Some((value, pair)) => setting_at(w, i as int) == Some((value@, pair)),
            }
        }),
{
    let ghost w = words@.map_values(|w: (usize, usize, String)| word_view(w));
    if text::str_eq(&words[i].2, "-c") && words.len() - i > 1 {
        let next = text::strip_prefix(&words[i + 1].2, TOKEN_PARAM_EQ);
        if let Some(value) = next {
            return Some((value, true));
        }
    }
    proof {
        lemma_prefix_twice(words@[i as int].2@, "-c"@, TOKEN_PARAM_EQ@);
    }
    match text::strip_prefix(&words[i].2, "-c") {
        Some(rest) => match text::strip_prefix(&rest, TOKEN_PARAM_EQ) {
            Some(value) => Some((value, false)),
            None => None,
        },
        None => None,
    }
}

/// Extracts `-c tikovm_token=<token>` from a libpq `options` value (also the
/// glued `-ctikovm_token=<token>` form), returning the token and the options
/// with just that setting removed. Other words keep their original text,
/// rejoined with single spaces.
pub fn extract_from_options(options: &str) -> (found: (Option<String>, String))
    ensures
        text::opt_view(found.0) == options_token(options@),
        found.1@ == options_rest(options@),
{
    let words = split_opts(options);
    let ghost w = words_of(options@);
    let ghost b = encode_utf8(options@);
    let mut token: Option<String> = None;
    let mut kept: Vec<usize> = Vec::new();
    let mut i: usize = 0;
    proof {
        assert(kept@.map_values(|k: usize| k as int) + kept_words(w, 0) =~= kept_words(w, 0));
    }
    while i < words.len()
        invariant
            w == words@.map_values(|w: (usize, usize, String)| word_view(w)),
            0 <= i <= words@.len(),
            w.len() == words@.len(),
            token is Some ==> options_token(options@) == Some(token->0@),
            token is None ==> options_token(options@) == first_setting(w, i as int),
            w == words_of(options@),
            kept@.map_values(|k: usize| k as int) + kept_words(w, i as int) == kept_words(w, 0),
            forall|j: int| 0 <= j < kept@.len() ==> kept@[j] < words@.len(),
        decreases words@.len() - i,
    {
        let setting = find_setting(&words, i);
        match setting {
            Some((value, pair)) => {
                if token.is_none() {
                    token = Some(value);
                }
                i += if pair { 2 } else { 1 };
            },
            None => {
                let ghost before = kept@.map_values(|k: usize| k as int);
                kept.push(i);
                proof {
                    let rest = kept_words(w, i as int + 1);
                    assert(kept@.map_values(|k: usize| k as int) =~= before.push(i as int));
                    assert(before + (seq![i as int] + rest) =~= before.push(i as int) + rest);
                }
                i += 1;
            },
        }
    }
    let ghost kept_view = kept@.map_values(|k: usize| k as int);
    proof {
        assert(kept_view + kept_words(w, i as int) =~= kept_view);
    }
    if token.is_none() {
        return (None, options.to_owned());
    }
    let bytes = options.as_bytes();
    let mut rest: Vec<u8> = Vec::new();
    let mut j: usize = 0;
    proof {
        encode_utf8_valid_utf8(options@);
        is_char_boundary_start_end_of_seq(b);
        assert(kept_view.take(0) =~= seq![]);
        assert(valid_utf8(seq![]));
        assert(valid_utf8(seq![32u8])) by {
            reveal_with_fuel(valid_utf8, 2);
            assert(pop_first_scalar(seq![32u8]) =~= seq![]);
        }
    }
    while j < kept.len()
        invariant
            bytes@ == b,
            b == encode_utf8(options@),
            valid_utf8(b),
            valid_utf8(seq![32u8]),
            is_char_boundary(b, 0),
            w == words_of(options@),
            w == words@.map_values(|w: (usize, usize, String)| word_view(w)),
            w.len() == words@.len(),
            forall|k: int| 0 <= k < kept@.len() ==> kept@[k] < words@.len(),
            kept_view == kept@.map_values(|k: usize| k as int),
            0 <= j <= kept@.len(),
            rest@ == join_words(b, w, kept_view.take(j as int)),
            valid_utf8(rest@),
        decreases kept@.len() - j,
    {
        let k: usize = kept[j];
        proof {
            lemma_words_on_boundaries(b, 0, k as int);
            let raw = words_from(b, 0)[k as int];
            assert(w[k as int] == (raw.0, raw.1, text::utf8_lossy(raw.2)));
            lemma_span_valid(b, raw.0, raw.1);
            assert(w[k as int] == word_view(words@[k as int]));
            assert(kept_view.take(j as int + 1).drop_last() =~= kept_view.take(j as int));
            assert(kept_view.take(j as int + 1).last() == k);
        }
        let ghost before = rest@;
        if j > 0 {
            rest.push(32);
            proof {
                assert(rest@ =~= before + seq![32u8]);
                valid_utf8_concat(before, seq![32u8]);
            }
        }
        let span = &bytes[words[k].0..words[k].1];
        let ghost sep = rest@;
        rest.extend_from_slice(span);
        proof {
            assert(rest@ =~= sep + span@);
            valid_utf8_concat(sep, span@);
            if j == 0 {
                assert(rest@ =~= span@);
            }
        }
        j += 1;
    }
    proof {
        assert(kept_view.take(j as int) =~= kept_view);
    }
    let rest_text = text::from_utf8_lossy(&rest);
    (token, rest_text)
}

// ---------------------------------------------------------------------------
// Laws
// ---------------------------------------------------------------------------

/// A word that is copied elsewhere is scanned there as it was: what follows
/// the copy is white space or nothing, and nothing if the text ended there.
proof fn lemma_scan_copy(b: Seq<u8>, i: int, c: Seq<u8>, j: int, squote: bool, dquote: bool)
    requires
        0 <= i <= b.len(),
        0 <= j,
        j + scan_word(b, i, squote, dquote).0 - i <= c.len(),
        forall|k: int|
            i <= k < scan_word(b, i, squote, dquote).0 ==> b[k] == #[trigger] c[j + (k - i)],
        j + scan_word(b, i, squote, dquote).0 - i < c.len() ==> is_space(
            c[j + scan_word(b, i, squote, dquote).0 - i],
        ) && scan_word(b, i, squote, dquote).0 < b.len(),
    ensures
        scan_word(c, j, squote, dquote) == (
            j + scan_word(b, i, squote, dquote).0 - i,
            scan_word(b, i, squote, dquote).1,
        ),
    decreases b.len() - i,
{
    lemma_scan_word_end(b, i, squote, dquote);
    let end = scan_word(b, i, squote, dquote).0;
    if i >= b.len() {
    } else if !squote && !dquote && is_space(b[i]) {
    } else {
        let (step, sq, dq) = if b[i] == 92 && !squote && i + 1 < b.len() {
            (2int, squote, dquote)
        } else if b[i] == 39 && !dquote {
            (1int, !squote, dquote)
        } else if b[i] == 34 && !squote {
            (1int, squote, !dquote)
        } else {
            (1int, squote, dquote)
        };
        lemma_scan_word_end(b, i + step, sq, dq);
        assert(scan_word(b, i + step, sq, dq).0 == end);
        assert(b[i] == c[j + (i - i)]);
        if step == 2 {
            assert(b[i + 1] == c[j + (i + 1 - i)]);
        }
        assert forall|k: int| i + step <= k < end implies b[k] == #[trigger] c[j + step + (k - (i
            + step))] by {
            assert(b[k] == c[j + (k - i)]);
        }
        lemma_scan_copy(b, i + step, c, j + step, sq, dq);
    }
}

/// Where the words of a text are: each starts at a byte that is no space, is
/// what scanning from there gives, and only the last reaches the end.
proof fn lemma_word_spans(b: Seq<u8>, i: int, k: int)
    requires
        0 <= i <= b.len(),
        0 <= k < words_from(b, i).len(),
    ensures
        ({
            let (start, end, word) = words_from(b, i)[k];
            &&& i <= start < end <= b.len()
            &&& !is_space(b[start])
            &&& scan_word(b, start, false, false) == (end, word)
            &&& end == b.len() ==> k == words_from(b, i).len() - 1
        }),
    decreases b.len() - i,
{
    if is_space(b[i]) {
        lemma_word_spans(b, i + 1, k);
    } else {
        lemma_scan_word_end(b, i, false, false);
        let end = scan_word(b, i, false, false).0;
        if k > 0 {
            lemma_word_spans(b, end, k - 1);
        } else if end == b.len() {
            assert(words_from(b, end).len() == 0);
        }
    }
}

/// The words that are kept are words of the text, in their order, and none of
/// them is a token setting where it stands.
proof fn lemma_kept_words(w: Seq<(int, int, Seq<char>)>, i: int)
    requires
        0 <= i,
    ensures
        forall|n: int|
            0 <= n < kept_words(w, i).len() ==> i <= #[trigger] kept_words(w, i)[n] < w.len()
                && setting_at(w, kept_words(w, i)[n]) is None,
        forall|n: int, m: int|
            0 <= n < m < kept_words(w, i).len() ==> #[trigger] kept_words(w, i)[n]
                < #[trigger] kept_words(w, i)[m],
    decreases w.len() - i,
{
    if i < w.len() {
        match setting_at(w, i) {
            Some((_, pair)) => {
                lemma_kept_words(w, if pair { i + 2 } else { i + 1 });
            },
            None => {
                lemma_kept_words(w, i + 1);
                let rest = kept_words(w, i + 1);
                assert forall|n: int, m: int| 0 <= n < m < kept_words(w, i).len() implies
                    #[trigger] kept_words(w, i)[n] < #[trigger] kept_words(w, i)[m] by {
                    assert(kept_words(w, i)[m] == rest[m - 1]);
                    if n > 0 {
                        assert(kept_words(w, i)[n] == rest[n - 1]);
                    }
                }
            },
        }
    }
}

/// Where the copy of the `n`-th kept word starts among the joined words.
spec fn copied_to(w: Seq<(int, int, Seq<char>)>, kept: Seq<int>, n: int) -> int
    decreases n,
{
    if n <= 0 {
        0
    } else {
        copied_to(w, kept, n - 1) + (w[kept[n - 1]].1 - w[kept[n - 1]].0) + 1
    }
}

proof fn lemma_copied_to_prefix(w: Seq<(int, int, Seq<char>)>, kept: Seq<int>, n: int)
    requires
        0 <= n < kept.len(),
    ensures
        copied_to(w, kept.drop_last(), n) == copied_to(w, kept, n),
    decreases n,
{
    if n > 0 {
        lemma_copied_to_prefix(w, kept, n - 1);
    }
}

/// What the joined words hold: the bytes of every word, and a space behind each
/// but the last.
proof fn lemma_joined(b: Seq<u8>, w: Seq<(int, int, Seq<char>)>, kept: Seq<int>, n: int)
    requires
        0 <= n < kept.len(),
        forall|m: int|
            0 <= m < kept.len() ==> 0 <= w[#[trigger] kept[m]].0 < w[kept[m]].1 <= b.len(),
    ensures
        ({
            let c = join_words(b, w, kept);
            let (start, end) = (w[kept[n]].0, w[kept[n]].1);
            let at = copied_to(w, kept, n);
            &&& 0 <= at
            &&& at + (end - start) <= c.len()
            &&& forall|k: int| start <= k < end ==> b[k] == #[trigger] c[at + (k - start)]
            &&& n + 1 < kept.len() ==> at + (end - start) < c.len() && c[at + (end - start)] == 32
            &&& n + 1 == kept.len() ==> at + (end - start) == c.len()
        }),
    decreases kept.len(),
{
    let c = join_words(b, w, kept);
    let last = kept.last();
    let word = b.subrange(w[last].0, w[last].1);
    let head = kept.drop_last();
    assert(w[kept[kept.len() - 1]].0 < w[kept[kept.len() - 1]].1);
    if kept.len() > 1 {
        let h = join_words(b, w, head);
        assert(c == h.push(32) + word);
        assert forall|m: int| 0 <= m < head.len() implies 0 <= w[#[trigger] head[m]].0
            < w[head[m]].1 <= b.len() by {
            assert(head[m] == kept[m]);
        }
        if n + 1 < kept.len() {
            lemma_joined(b, w, head, n);
            lemma_copied_to_prefix(w, kept, n);
            let at = copied_to(w, kept, n);
            let (start, end) = (w[kept[n]].0, w[kept[n]].1);
            assert forall|k: int| start <= k < end implies b[k] == #[trigger] c[at + (k - start)] by {
                assert(b[k] == h[at + (k - start)]);
            }
        } else {
            lemma_joined(b, w, head, n - 1);
            lemma_copied_to_prefix(w, kept, n - 1);
            assert(head[n - 1] == kept[n - 1]);
            assert(copied_to(w, kept, n) == h.len() + 1);
        }
    } else {
        assert(c == word);
    }
}

/// The texts of words.
pub open spec fn word_texts(w: Seq<(int, int, Seq<char>)>) -> Seq<Seq<char>> {
    w.map_values(|x: (int, int, Seq<char>)| x.2)
}

/// The joined words split up into the words that were joined.
proof fn lemma_joined_words(b: Seq<u8>, w: Seq<(int, int, Seq<char>)>, kept: Seq<int>, n: int)
    requires
        0 <= n < kept.len(),
        w == words_from(b, 0).map_values(
            |x: (int, int, Seq<u8>)| (x.0, x.1, text::utf8_lossy(x.2)),
        ),
        forall|m: int| 0 <= m < kept.len() ==> 0 <= #[trigger] kept[m] < w.len(),
        forall|m: int, l: int| 0 <= m < l < kept.len() ==> #[trigger] kept[m] < #[trigger] kept[l],
    ensures
        ({
            let found = words_from(join_words(b, w, kept), copied_to(w, kept, n));
            &&& found.len() == kept.len() - n
            &&& forall|m: int|
                n <= m < kept.len() ==> (#[trigger] found[m - n]).2 == words_from(b, 0)[kept[m]].2
        }),
    decreases kept.len() - n,
{
    let raw = words_from(b, 0);
    let c = join_words(b, w, kept);
    assert forall|m: int| 0 <= m < kept.len() implies 0 <= w[#[trigger] kept[m]].0 < w[kept[m]].1
        <= b.len() by {
        lemma_word_spans(b, 0, kept[m]);
    }
    lemma_joined(b, w, kept, n);
    lemma_word_spans(b, 0, kept[n]);
    let (start, end) = (w[kept[n]].0, w[kept[n]].1);
    let at = copied_to(w, kept, n);
    assert(b[start] == c[at + (start - start)]);
    if n + 1 < kept.len() {
        assert(kept[n] < kept[n + 1]);
    }
    lemma_scan_copy(b, start, c, at, false, false);
    let found = words_from(c, at);
    let done = at + (end - start);
    assert(found == seq![(at, done, raw[kept[n]].2)] + words_from(c, done));
    if n + 1 < kept.len() {
        assert(words_from(c, done) == words_from(c, done + 1));
        assert(copied_to(w, kept, n + 1) == done + 1);
        lemma_joined_words(b, w, kept, n + 1);
        let rest = words_from(c, done + 1);
        assert forall|m: int| n <= m < kept.len() implies (#[trigger] found[m - n]).2
            == words_from(b, 0)[kept[m]].2 by {
            if m > n {
                assert(found[m - n] == rest[m - (n + 1)]);
            }
        }
    } else {
        assert(words_from(c, done).len() == 0);
    }
}

/// The joined words are valid UTF-8.
proof fn lemma_joined_valid(b: Seq<u8>, w: Seq<(int, int, Seq<char>)>, kept: Seq<int>)
    requires
        valid_utf8(b),
        w == words_from(b, 0).map_values(
            |x: (int, int, Seq<u8>)| (x.0, x.1, text::utf8_lossy(x.2)),
        ),
        forall|m: int| 0 <= m < kept.len() ==> 0 <= #[trigger] kept[m] < w.len(),
    ensures
        valid_utf8(join_words(b, w, kept)),
    decreases kept.len(),
{
    if kept.len() == 0 {
        assert(valid_utf8(seq![]));
    } else {
        let k = kept[kept.len() - 1];
        is_char_boundary_start_end_of_seq(b);
        lemma_words_on_boundaries(b, 0, k);
        lemma_span_valid(b, w[k].0, w[k].1);
        let word = b.subrange(w[k].0, w[k].1);
        if kept.len() > 1 {
            let head = kept.drop_last();
            assert forall|m: int| 0 <= m < head.len() implies 0 <= #[trigger] head[m] < w.len() by {
                assert(head[m] == kept[m]);
            }
            lemma_joined_valid(b, w, head);
            let h = join_words(b, w, head);
            assert(valid_utf8(seq![32u8])) by {
                reveal_with_fuel(valid_utf8, 2);
                assert(pop_first_scalar(seq![32u8]) =~= seq![]);
            }
            valid_utf8_concat(h, seq![32u8]);
            assert(h.push(32) =~= h + seq![32u8]);
            valid_utf8_concat(h.push(32), word);
        }
    }
}

/// If there is no token setting, every word is kept.
proof fn lemma_nothing_dropped(w: Seq<(int, int, Seq<char>)>, i: int)
    requires
        0 <= i <= w.len(),
        first_setting(w, i) is None,
    ensures
        kept_words(w, i) == Seq::new((w.len() - i) as nat, |n: int| i + n),
    decreases w.len() - i,
{
    if i < w.len() {
        lemma_nothing_dropped(w, i + 1);
        assert(kept_words(w, i) =~= Seq::new((w.len() - i) as nat, |n: int| i + n));
    } else {
        assert(kept_words(w, i) =~= Seq::new((w.len() - i) as nat, |n: int| i + n));
    }
}

/// The texts of the words that no token setting takes.
pub open spec fn other_words(options: Seq<char>) -> Seq<Seq<char>> {
    let w = words_of(options);
    kept_words(w, 0).map_values(|k: int| w[k].2)
}

/// Taking the token out leaves every other word as it was, and in its place.
pub proof fn law_other_options_are_kept(options: Seq<char>)
    ensures
        word_texts(words_of(options_rest(options))) == other_words(options),
{
    let w = words_of(options);
    let b = encode_utf8(options);
    let kept = kept_words(w, 0);
    let rest = options_rest(options);
    lemma_kept_words(w, 0);
    if options_token(options) is None {
        lemma_nothing_dropped(w, 0);
        assert(word_texts(words_of(rest)) =~= other_words(options));
    } else {
        encode_utf8_valid_utf8(options);
        lemma_joined_valid(b, w, kept);
        let c = join_words(b, w, kept);
        decode_utf8_encode_utf8(c);
        if kept.len() > 0 {
            lemma_joined_words(b, w, kept, 0);
            assert forall|n: int| 0 <= n < kept.len() implies (#[trigger] words_of(rest)[n]).2
                == w[kept[n]].2 by {
                assert(words_from(c, 0)[n - 0].2 == words_from(b, 0)[kept[n]].2);
            }
        } else {
            assert(words_from(c, 0).len() == 0);
        }
        assert(word_texts(words_of(rest)) =~= other_words(options));
    }
}

/// Whether taking token settings out brings a lone `-c` together with a word
/// that then reads as its token setting, as in
/// `-c -c tikovm_token=x tikovm_token=y`.
pub open spec fn forms_setting(options: Seq<char>) -> bool {
    let others = other_words(options);
    exists|n: int|
        0 <= n < others.len() - 1 && #[trigger] others[n] == "-c"@ && text::has_prefix(
            others[n + 1],
            TOKEN_PARAM_EQ@,
        )
}

/// There is no first setting exactly if there is none at any word.
proof fn lemma_first_setting(w: Seq<(int, int, Seq<char>)>, i: int)
    requires
        0 <= i,
    ensures
        first_setting(w, i) is None <==> forall|n: int|
            i <= n < w.len() ==> #[trigger] setting_at(w, n) is None,
    decreases w.len() - i,
{
    if i < w.len() {
        lemma_first_setting(w, i + 1);
        if setting_at(w, i) is None && first_setting(w, i + 1) is None {
            assert forall|n: int| i <= n < w.len() implies #[trigger] setting_at(w, n) is None by {
                if n > i {
                    assert(setting_at(w, n) is None);
                }
            }
        }
    }
}

/// What is left of an options text sets no token, except exactly where words
/// that the settings kept apart form one.
pub proof fn law_rest_sets_no_token(options: Seq<char>)
    ensures
        options_token(options_rest(options)) is None <==> !forms_setting(options),
{
    let w = words_of(options);
    let kept = kept_words(w, 0);
    let others = other_words(options);
    let left = words_of(options_rest(options));
    lemma_kept_words(w, 0);
    law_other_options_are_kept(options);
    assert(word_texts(left).len() == others.len());
    assert forall|n: int| 0 <= n < left.len() implies (#[trigger] setting_at(left, n) is Some <==> n
        + 1 < others.len() && others[n] == "-c"@ && text::has_prefix(
        others[n + 1],
        TOKEN_PARAM_EQ@,
    )) by {
        assert(word_texts(left)[n] == others[n]);
        assert(others[n] == w[kept[n]].2);
        assert(setting_at(w, kept[n]) is None);
        if n + 1 < left.len() {
            assert(word_texts(left)[n + 1] == others[n + 1]);
        }
    }
    lemma_first_setting(left, 0);
    if forms_setting(options) {
        let n = choose|n: int|
            0 <= n < others.len() - 1 && #[trigger] others[n] == "-c"@ && text::has_prefix(
                others[n + 1],
                TOKEN_PARAM_EQ@,
            );
        assert(setting_at(left, n) is Some);
    }
}

} // verus!
