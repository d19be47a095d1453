//! What the operations on texts come to on texts of a known shape.

use vstd::prelude::*;

use crate::text;
use crate::text::{
    before, decimal, find_text, has_prefix, is_white, joined, lines_of, path_joined, read_i32,
    signed_decimal, trimmed, trimmed_end, trimmed_start, word_len, words, SignedError,
};

verus! {

/// Whether a text is all white space.
pub open spec fn blank(s: Seq<char>) -> bool {
    forall|i: int| 0 <= i < s.len() ==> is_white(#[trigger] s[i])
}

proof fn lemma_start_trimmed(a: Seq<char>, s: Seq<char>)
    requires
        blank(a),
    ensures
        trimmed_start(a + s) == trimmed_start(s),
    decreases a.len(),
{
    if a.len() == 0 {
        assert(a + s =~= s);
    } else {
        let rest = a.drop_first();
        assert(is_white(a[0]));
        assert forall|i: int| 0 <= i < rest.len() implies is_white(#[trigger] rest[i]) by {
            assert(rest[i] == a[i + 1]);
        }
        lemma_start_trimmed(rest, s);
        assert((a + s)[0] == a[0]);
        assert((a + s).drop_first() =~= rest + s);
    }
}

proof fn lemma_end_trimmed(s: Seq<char>, b: Seq<char>)
    requires
        blank(b),
    ensures
        trimmed_end(s + b) == trimmed_end(s),
    decreases b.len(),
{
    if b.len() == 0 {
        assert(s + b =~= s);
    } else {
        let rest = b.drop_last();
        assert(is_white(b[b.len() - 1]));
        assert forall|i: int| 0 <= i < rest.len() implies is_white(#[trigger] rest[i]) by {
            assert(rest[i] == b[i]);
        }
        lemma_end_trimmed(s, rest);
        assert((s + b).last() == b.last());
        assert((s + b).drop_last() =~= s + rest);
    }
}

/// Trimming takes the white space at both ends off and leaves what is between.
pub proof fn law_trimming_takes_white_space_off(a: Seq<char>, core: Seq<char>, b: Seq<char>)
    requires
        blank(a),
        blank(b),
        core.len() > 0 ==> !is_white(core[0]) && !is_white(core.last()),
    ensures
        trimmed(a + core + b) == core,
{
    assert(a + core + b =~= a + (core + b));
    lemma_start_trimmed(a, core + b);
    if core.len() == 0 {
        assert(core + b =~= b + core);
        lemma_start_trimmed(b, core);
        assert(trimmed_start(core) == core);
        assert(trimmed_end(core) == core);
    } else {
        assert((core + b)[0] == core[0]);
        assert(trimmed_start(core + b) == core + b);
        lemma_end_trimmed(core, b);
        assert(trimmed_end(core) == core);
    }
}

/// A line ends at its line feed; a carriage return right before it belongs to
/// neither, and what follows is read on its own.
pub proof fn law_lines_end_at_line_feeds(line: Seq<char>, rest: Seq<char>)
    requires
        forall|i: int| 0 <= i < line.len() ==> #[trigger] line[i] != '\n',
        line.len() > 0 ==> line.last() != '\r',
    ensures
        lines_of(line + seq!['\n'] + rest) == seq![line] + lines_of(rest),
        lines_of(line + seq!['\r', '\n'] + rest) == seq![line] + lines_of(rest),
        line.len() > 0 ==> lines_of(line) == seq![line],
{
    let s = line + seq!['\n'] + rest;
    let n = line.len() as int;
    assert(s[n] == '\n');
    assert forall|j: int| 0 <= j < n implies s[j] != '\n' by {
        assert(s[j] == line[j]);
    }
    text::lemma_char_index_at(s, '\n', n);
    assert(s.take(n) =~= line);
    assert(s.skip(n + 1) =~= rest);
    if n > 0 {
        assert(s[n - 1] == line[n - 1]);
    }
    let t = line + seq!['\r', '\n'] + rest;
    assert(t[n] == '\r');
    assert(t[n + 1] == '\n');
    assert forall|j: int| 0 <= j < n + 1 implies t[j] != '\n' by {
        if j < n {
            assert(t[j] == line[j]);
        }
    }
    text::lemma_char_index_at(t, '\n', n + 1);
    assert(t.take(n) =~= line);
    assert(t.skip(n + 2) =~= rest);
    text::lemma_char_index(line, '\n');
}

proof fn lemma_word_len(word: Seq<char>, rest: Seq<char>)
    requires
        forall|i: int| 0 <= i < word.len() ==> !is_white(#[trigger] word[i]),
        rest.len() > 0 ==> is_white(rest[0]),
    ensures
        word_len(word + rest) == word.len(),
    decreases word.len(),
{
    if word.len() == 0 {
        assert(word + rest =~= rest);
    } else {
        let tail = word.drop_first();
        assert forall|i: int| 0 <= i < tail.len() implies !is_white(#[trigger] tail[i]) by {
            assert(tail[i] == word[i + 1]);
        }
        lemma_word_len(tail, rest);
        assert((word + rest)[0] == word[0]);
        assert((word + rest).drop_first() =~= tail + rest);
    }
}

/// Words are what stands between white space: a word, and what follows the white
/// space behind it.
pub proof fn law_words_stand_between_white_space(word: Seq<char>, gap: char, rest: Seq<char>)
    requires
        word.len() > 0,
        forall|i: int| 0 <= i < word.len() ==> !is_white(#[trigger] word[i]),
        is_white(gap),
    ensures
        words(word + seq![gap] + rest) == seq![word] + words(rest),
        words(seq![gap] + rest) == words(rest),
        words(word) == seq![word],
{
    let tail = seq![gap] + rest;
    let s = word + seq![gap] + rest;
    assert(s =~= word + tail);
    lemma_word_len(word, tail);
    assert(s[0] == word[0]);
    let n = word.len() as int;
    assert(s.take(n) =~= word);
    assert(s.skip(n) =~= tail);
    assert(tail[0] == gap);
    assert(tail.drop_first() =~= rest);
    assert(words(s) == seq![s.take(n)] + words(s.skip(n)));
    lemma_word_len(word, seq![]);
    assert(word + seq![] =~= word);
    assert(word.take(n) =~= word);
    assert(word.skip(n) =~= seq![]);
    assert(words(Seq::<char>::empty()) =~= seq![]);
    assert(words(word) == seq![word.take(n)] + words(word.skip(n)));
    assert(words(word) =~= seq![word]);
}

/// A text is found where it stands first, and is not found where it does not
/// stand at all.
pub proof fn law_text_is_found_where_it_stands_first(s: Seq<char>, pat: Seq<char>)
    ensures
        match find_text(s, pat) {
            Some(i) => i <= s.len() && has_prefix(s.skip(i as int), pat) && forall|j: int|
                0 <= j < i ==> !has_prefix(#[trigger] s.skip(j), pat),
            None => forall|j: int| 0 <= j <= s.len() ==> !has_prefix(#[trigger] s.skip(j), pat),
        },
    decreases s.len(),
{
    assert(s.skip(0) =~= s);
    if !has_prefix(s, pat) && s.len() > 0 {
        let rest = s.drop_first();
        law_text_is_found_where_it_stands_first(rest, pat);
        assert forall|j: int| 1 <= j <= s.len() implies #[trigger] s.skip(j) == rest.skip(j - 1) by {
            assert(s.skip(j) =~= rest.skip(j - 1));
        }
        if let Some(i) = find_text(rest, pat) {
            assert(s.skip(i as int + 1) == rest.skip(i as int));
            assert forall|j: int| 0 <= j < i + 1 implies !has_prefix(#[trigger] s.skip(j), pat) by {
                if j > 0 {
                    assert(s.skip(j) == rest.skip(j - 1));
                }
            }
        } else {
            assert forall|j: int| 0 <= j <= s.len() implies !has_prefix(
                #[trigger] s.skip(j),
                pat,
            ) by {
                if j > 0 {
                    assert(s.skip(j) == rest.skip(j - 1));
                }
            }
        }
    }
}

/// Joined texts stand one behind the other, with the separator in between and
/// nowhere else.
pub proof fn law_joined_texts(v: Seq<Seq<char>>, x: Seq<char>, sep: Seq<char>)
    ensures
        joined(seq![x], sep) == x,
        v.len() > 0 ==> joined(v.push(x), sep) == joined(v, sep) + sep + x,
{
    if v.len() > 0 {
        assert(v.push(x).drop_last() =~= v);
    }
}

/// Appending a relative name to a path keeps both, with one slash in between; an
/// absolute name stands for itself.
pub proof fn law_paths_are_joined_by_one_slash(base: Seq<char>, name: Seq<char>)
    requires
        name.len() > 0,
    ensures
        name[0] == '/' ==> path_joined(base, name) == name,
        name[0] != '/' ==> path_joined(base, name).skip(
            path_joined(base, name).len() - name.len(),
        ) == name,
        name[0] != '/' && base.len() > 0 && base.last() != '/' ==> path_joined(base, name).take(
            path_joined(base, name).len() - name.len(),
        ) == base.push('/'),
        name[0] != '/' && base.len() > 0 && base.last() == '/' ==> path_joined(base, name).take(
            path_joined(base, name).len() - name.len(),
        ) == base,
{
    reveal_strlit("/");
    let p = path_joined(base, name);
    if name[0] != '/' {
        assert(p.skip(p.len() - name.len()) =~= name);
        if base.len() > 0 && base.last() != '/' {
            assert(p.take(p.len() - name.len()) =~= base.push('/'));
        } else if base.len() > 0 {
            assert(p.take(p.len() - name.len()) =~= base);
        }
    }
}

/// Every 32-bit number is read back from its own notation.
pub proof fn law_signed_numbers_are_read_back(n: i32)
    ensures
        read_i32(signed_decimal(n as int)) == Ok::<int, SignedError>(n as int),
{
    reveal_strlit("-");
    if n < 0 {
        let m = (-n) as nat;
        let s = signed_decimal(n as int);
        text::lemma_decimal_digits(m);
        text::lemma_read_decimal(m, 0x8000_0000);
        assert(s.skip(1) =~= decimal(m));
        assert(s[0] == '-');
        assert(text::is_digit(decimal(m)[0]));
    } else {
        text::lemma_decimal_digits(n as nat);
        text::lemma_read_decimal(n as nat, 0x7fff_ffff);
        assert(text::is_digit(decimal(n as nat)[0]));
    }
}

/// Texts are ordered by the first character in which they differ.
pub proof fn law_first_difference_orders(a: Seq<char>, b: Seq<char>, i: int)
    requires
        0 <= i < a.len(),
        i < b.len(),
        a[i] < b[i],
        forall|j: int| 0 <= j < i ==> #[trigger] a[j] == b[j],
    ensures
        before(a, b),
        !before(b, a),
    decreases i,
{
    if i > 0 {
        assert(a[0] == b[0]);
        let x = a.drop_first();
        let y = b.drop_first();
        assert forall|j: int| 0 <= j < i - 1 implies #[trigger] x[j] == y[j] by {
            assert(a[j + 1] == b[j + 1]);
        }
        law_first_difference_orders(x, y, i - 1);
    }
}

/// A text comes before whatever it begins.
pub proof fn law_beginning_comes_first(a: Seq<char>, rest: Seq<char>)
    requires
        rest.len() > 0,
    ensures
        before(a, a + rest),
        !before(a + rest, a),
    decreases a.len(),
{
    if a.len() > 0 {
        law_beginning_comes_first(a.drop_first(), rest);
        assert((a + rest)[0] == a[0]);
        assert((a + rest).drop_first() =~= a.drop_first() + rest);
    }
}

} // verus!
