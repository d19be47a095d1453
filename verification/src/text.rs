//! Text: decimal rendering, comparison, prefixes and the few standard library
//! calls on strings that the other modules lean on.

use vstd::prelude::*;
use vstd::utf8::*;

verus! {

// ---------------------------------------------------------------------------
// Standard library calls
// ---------------------------------------------------------------------------

/// `String::push` appends one character.
pub assume_specification[ String::push ](s: &mut String, c: char)
    ensures
        final(s)@ == old(s)@.push(c),
;

/// What `String::from_utf8_lossy` makes of bytes that are not valid UTF-8.
pub uninterp spec fn utf8_repaired(bytes: Seq<u8>) -> Seq<char>;

/// The text of `bytes`: their UTF-8 decoding, with ill-formed parts replaced.
pub open spec fn utf8_lossy(bytes: Seq<u8>) -> Seq<char> {
    if valid_utf8(bytes) {
        decode_utf8(bytes)
    } else {
        utf8_repaired(bytes)
    }
}

/// Calls `String::from_utf8_lossy`: valid UTF-8 is decoded as it is, and
/// anything else is repaired in a way that depends on the bytes alone.
#[verifier::external_body]
pub(crate) fn from_utf8_lossy(bytes: &[u8]) -> (s: String)
    ensures
        valid_utf8(bytes@) ==> s@ == decode_utf8(bytes@),
        !valid_utf8(bytes@) ==> s@ == utf8_repaired(bytes@),
{
    String::from_utf8_lossy(bytes).into_owned()
}

/// Whether a character has the Unicode property `White_Space`.
pub open spec fn is_white(c: char) -> bool {
    let n = c as int;
    9 <= n <= 13 || n == 0x20 || n == 0x85 || n == 0xa0 || n == 0x1680 || 0x2000 <= n <= 0x200a
        || n == 0x2028 || n == 0x2029 || n == 0x202f || n == 0x205f || n == 0x3000
}

/// Calls `char::is_whitespace`, which tells whether a character has the
/// Unicode property `White_Space`.
#[verifier::external_body]
pub(crate) fn white(c: char) -> (b: bool)
    ensures
        b == is_white(c),
{
    c.is_whitespace()
}

/// A text as the debug formatting of `str` quotes and escapes it.
pub uninterp spec fn debug_quoted(s: Seq<char>) -> Seq<char>;

/// Formats a text with the debug formatting of `str`, which quotes and escapes
/// it in a way that depends on the text alone.
#[verifier::external_body]
pub(crate) fn quote(s: &str) -> (q: String)
    ensures
        q@ == debug_quoted(s@),
{
    format!("{:?}", s)
}

/// What `str::to_lowercase` gives.
pub uninterp spec fn lowered(s: Seq<char>) -> Seq<char>;

/// Calls `str::to_lowercase`, whose result depends on the text alone.
#[verifier::external_body]
pub(crate) fn to_lowercase(s: &str) -> (r: String)
    ensures
        r@ == lowered(s@),
{
    s.to_lowercase()
}

// ---------------------------------------------------------------------------
// Characters and strings
// ---------------------------------------------------------------------------

/// The characters of a string, in order.
pub fn chars_of(s: &str) -> (chars: Vec<char>)
    ensures
        chars@ == s@,
{
    let mut chars: Vec<char> = Vec::new();
    for c in it: s.chars()
        invariant
            chars@ == it.seq().take(it.index() as int),
            it.seq() == s@,
    {
        chars.push(c);
        proof {
            assert(it.seq().take(it.index() as int + 1) =~= it.seq().take(it.index() as int).push(c));
        }
    }
    proof {
        assert(s@.take(s@.len() as int) =~= s@);
    }
    chars
}

/// The string made of the given characters.
pub fn string_of(chars: &[char]) -> (s: String)
    ensures
        s@ == chars@,
{
    let mut s = String::new();
    let mut i: usize = 0;
    while i < chars.len()
        invariant
            i <= chars@.len(),
            s@ == chars@.take(i as int),
        decreases chars@.len() - i,
    {
        s.push(chars[i]);
        proof {
            assert(chars@.take(i as int + 1) =~= chars@.take(i as int).push(chars@[i as int]));
        }
        i += 1;
    }
    proof {
        assert(chars@.take(chars@.len() as int) =~= chars@);
    }
    s
}

/// Whether two byte strings are the same.
pub fn bytes_eq(a: &[u8], b: &[u8]) -> (same: bool)
    ensures
        same == (a@ == b@),
{
    if a.len() != b.len() {
        return false;
    }
    let mut i: usize = 0;
    while i < a.len()
        invariant
            i <= a@.len(),
            a@.len() == b@.len(),
            forall|j: int| 0 <= j < i ==> a@[j] == b@[j],
        decreases a@.len() - i,
    {
        if a[i] != b[i] {
            return false;
        }
        i += 1;
    }
    proof {
        assert(a@ =~= b@);
    }
    true
}

/// UTF-8 encodings are equal only for equal texts.
pub proof fn lemma_encode_injective(a: Seq<char>, b: Seq<char>)
    requires
        encode_utf8(a) == encode_utf8(b),
    ensures
        a == b,
{
    encode_utf8_decode_utf8(a);
    encode_utf8_decode_utf8(b);
}

/// Whether two strings are the same text.
pub fn str_eq(a: &str, b: &str) -> (same: bool)
    ensures
        same == (a@ == b@),
{
    let same = bytes_eq(a.as_bytes(), b.as_bytes());
    proof {
        if same {
            lemma_encode_injective(a@, b@);
        }
    }
    same
}

// ---------------------------------------------------------------------------
// Concatenation
// ---------------------------------------------------------------------------

/// Two texts, one after the other.
pub fn cat2(a: &str, b: &str) -> (s: String)
    ensures
        s@ == a@ + b@,
{
    let mut s = a.to_owned();
    s.append(b);
    s
}

/// Three texts, one after the other.
pub fn cat3(a: &str, b: &str, c: &str) -> (s: String)
    ensures
        s@ == a@ + b@ + c@,
{
    let mut s = cat2(a, b);
    s.append(c);
    s
}

/// Four texts, one after the other.
pub fn cat4(a: &str, b: &str, c: &str, d: &str) -> (s: String)
    ensures
        s@ == a@ + b@ + c@ + d@,
{
    let mut s = cat3(a, b, c);
    s.append(d);
    s
}

/// Five texts, one after the other.
pub fn cat5(a: &str, b: &str, c: &str, d: &str, e: &str) -> (s: String)
    ensures
        s@ == a@ + b@ + c@ + d@ + e@,
{
    let mut s = cat4(a, b, c, d);
    s.append(e);
    s
}

/// Six texts, one after the other.
pub fn cat6(a: &str, b: &str, c: &str, d: &str, e: &str, f: &str) -> (s: String)
    ensures
        s@ == a@ + b@ + c@ + d@ + e@ + f@,
{
    let mut s = cat5(a, b, c, d, e);
    s.append(f);
    s
}

/// Seven texts, one after the other.
pub fn cat7(a: &str, b: &str, c: &str, d: &str, e: &str, f: &str, g: &str) -> (s: String)
    ensures
        s@ == a@ + b@ + c@ + d@ + e@ + f@ + g@,
{
    let mut s = cat6(a, b, c, d, e, f);
    s.append(g);
    s
}

/// Eight texts, one after the other.
pub fn cat8(a: &str, b: &str, c: &str, d: &str, e: &str, f: &str, g: &str, h: &str) -> (s: String)
    ensures
        s@ == a@ + b@ + c@ + d@ + e@ + f@ + g@ + h@,
{
    let mut s = cat7(a, b, c, d, e, f, g);
    s.append(h);
    s
}

// ---------------------------------------------------------------------------
// Decimal numbers
// ---------------------------------------------------------------------------

/// The character of a decimal digit.
pub open spec fn digit_char(d: nat) -> char {
    (48 + d) as char
}

/// The usual decimal notation of a number, without leading zeros.
pub open spec fn decimal(n: nat) -> Seq<char>
    decreases n,
{
    if n < 10 {
        seq![digit_char(n)]
    } else {
        decimal(n / 10).push(digit_char(n % 10))
    }
}

/// Renders a number in decimal.
pub fn decimal_string(n: u64) -> (s: String)
    ensures
        s@ == decimal(n as nat),
    decreases n,
{
    let d: u8 = 48u8 + (n % 10) as u8;
    if n < 10 {
        let mut s = String::new();
        s.push(d as char);
        proof {
            assert(s@ =~= seq![digit_char(n as nat)]);
        }
        s
    } else {
        let mut s = decimal_string(n / 10);
        s.push(d as char);
        s
    }
}

/// Whether `c` is a decimal digit.
pub open spec fn is_digit(c: char) -> bool {
    '0' <= c <= '9'
}

/// The value of a decimal digit.
pub open spec fn digit_value(c: char) -> nat {
    (c as nat - 48) as nat
}

/// A digit's value and its character belong together.
pub proof fn lemma_digit_char(d: nat)
    requires
        d < 10,
    ensures
        is_digit(digit_char(d)),
        digit_value(digit_char(d)) == d,
        digit_char(d) != '.',
        digit_char(d) != '+',
        digit_char(d) != '/',
{
}

/// Whether `c` is a decimal digit, and its value.
pub fn digit_of(c: char) -> (d: Option<u8>)
    ensures
        match d {
            Some(v) => is_digit(c) && v == digit_value(c) && v < 10,
            None => !is_digit(c),
        },
{
    if c >= '0' && c <= '9' {
        Some((c as u32 - 48) as u8)
    } else {
        None
    }
}

/// Decimal notation is made of digits, and is never empty.
pub proof fn lemma_decimal_digits(n: nat)
    ensures
        decimal(n).len() > 0,
        forall|i: int| 0 <= i < decimal(n).len() ==> is_digit(#[trigger] decimal(n)[i]),
    decreases n,
{
    lemma_digit_char(n % 10);
    if n >= 10 {
        lemma_decimal_digits(n / 10);
    }
}

// ---------------------------------------------------------------------------
// Prefixes
// ---------------------------------------------------------------------------

/// Whether `s` begins with `prefix`.
pub open spec fn has_prefix(s: Seq<char>, prefix: Seq<char>) -> bool {
    prefix.len() <= s.len() && s.take(prefix.len() as int) == prefix
}

/// What follows `prefix` in `s`, if `s` begins with it.
pub open spec fn after_prefix(s: Seq<char>, prefix: Seq<char>) -> Option<Seq<char>> {
    if has_prefix(s, prefix) {
        Some(s.skip(prefix.len() as int))
    } else {
        None
    }
}

/// The view of an optional string.
pub open spec fn opt_view(s: Option<String>) -> Option<Seq<char>> {
    match s {
        Some(t) => Some(t@),
        None => None,
    }
}

/// Whether `s` begins with `prefix`.
pub fn starts_with(s: &str, prefix: &str) -> (found: bool)
    ensures
        found == has_prefix(s@, prefix@),
{
    let a = chars_of(s);
    let p = chars_of(prefix);
    if p.len() > a.len() {
        return false;
    }
    let mut i: usize = 0;
    while i < p.len()
        invariant
            i <= p@.len() <= a@.len(),
            a@ == s@,
            p@ == prefix@,
            forall|j: int| 0 <= j < i ==> a@[j] == p@[j],
        decreases p@.len() - i,
    {
        if a[i] != p[i] {
            proof {
                assert(a@.take(p@.len() as int)[i as int] == a@[i as int]);
            }
            return false;
        }
        i += 1;
    }
    proof {
        assert(a@.take(p@.len() as int) =~= p@);
    }
    true
}

/// What follows `prefix` in `s`, if `s` begins with it.
pub fn strip_prefix(s: &str, prefix: &str) -> (rest: Option<String>)
    ensures
        opt_view(rest) == after_prefix(s@, prefix@),
{
    if starts_with(s, prefix) {
        let n = prefix.unicode_len();
        let m = s.unicode_len();
        let tail = s.substring_char(n, m);
        proof {
            assert(s@.subrange(n as int, m as int) =~= s@.skip(prefix@.len() as int));
        }
        Some(tail.to_owned())
    } else {
        None
    }
}

// ---------------------------------------------------------------------------
// Splitting
// ---------------------------------------------------------------------------

/// The index of the first `c` in `s`; the length if there is none.
pub open spec fn char_index(s: Seq<char>, c: char) -> nat
    decreases s.len(),
{
    if s.len() == 0 || s[0] == c {
        0
    } else {
        1 + char_index(s.drop_first(), c)
    }
}

/// `char_index` is where `c` stands first.
pub proof fn lemma_char_index(s: Seq<char>, c: char)
    ensures
        char_index(s, c) <= s.len(),
        char_index(s, c) < s.len() ==> s[char_index(s, c) as int] == c,
        forall|j: int| 0 <= j < char_index(s, c) ==> s[j] != c,
    decreases s.len(),
{
    if s.len() > 0 && s[0] != c {
        lemma_char_index(s.drop_first(), c);
        assert forall|j: int| 0 <= j < char_index(s, c) implies s[j] != c by {
            if j > 0 {
                assert(s.drop_first()[j - 1] != c);
            }
        }
    }
}

/// The index of `c` is where it stands, if no earlier character is `c`.
pub proof fn lemma_char_index_at(s: Seq<char>, c: char, i: int)
    requires
        0 <= i < s.len(),
        s[i] == c,
        forall|j: int| 0 <= j < i ==> s[j] != c,
    ensures
        char_index(s, c) == i,
{
    lemma_char_index(s, c);
}

/// Splits `s` at its first `c`, which goes to neither part.
pub fn split_once(s: &str, c: char) -> (r: Option<(String, String)>)
    ensures
        ({
            let i = char_index(s@, c) as int;
            match r {
                Some((head, tail)) => i < s@.len() && head@ == s@.take(i) && tail@ == s@.skip(
                    i + 1,
                ),
                None => i == s@.len(),
            }
        }),
{
    let chars = chars_of(s);
    let mut i: usize = 0;
    while i < chars.len()
        invariant
            chars@ == s@,
            i <= chars@.len(),
            forall|j: int| 0 <= j < i ==> chars@[j] != c,
        decreases chars@.len() - i,
    {
        if chars[i] == c {
            proof {
                lemma_char_index_at(s@, c, i as int);
                assert(s@.take(i as int) =~= chars@.subrange(0, i as int));
                assert(s@.skip(i as int + 1) =~= chars@.subrange(i as int + 1, chars@.len() as int));
            }
            let n = chars.len();
            return Some((string_of(&chars[0..i]), string_of(&chars[i + 1..n])));
        }
        i += 1;
    }
    proof {
        lemma_char_index(s@, c);
    }
    None
}

// ---------------------------------------------------------------------------
// Reading numbers
// ---------------------------------------------------------------------------

/// Why a text is not a number.
#[derive(Debug, Clone, Copy, PartialEq, Eq, Structural)]
pub enum NumberError {
    Empty,
    InvalidDigit,
    TooLarge,
}

/// The sentence for a text that is not a number.
pub open spec fn number_error_text(e: NumberError) -> Seq<char> {
    match e {
        NumberError::Empty => "cannot parse integer from empty string"@,
        NumberError::InvalidDigit => "invalid digit found in string"@,
        NumberError::TooLarge => "number too large to fit in target type"@,
    }
}

impl NumberError {
    /// The sentence for a text that is not a number.
    pub fn message(self) -> (s: &'static str)
        ensures
            s@ == number_error_text(self),
    {
        match self {
            NumberError::Empty => "cannot parse integer from empty string",
            NumberError::InvalidDigit => "invalid digit found in string",
            NumberError::TooLarge => "number too large to fit in target type",
        }
    }
}

/// The number that digits denote, up to `max`, read from the left.
pub open spec fn read_digits(s: Seq<char>, max: nat) -> Result<nat, NumberError>
    decreases s.len(),
{
    if s.len() == 0 {
        Ok(0)
    } else {
        match read_digits(s.drop_last(), max) {
            Err(e) => Err(e),
            Ok(n) => if !is_digit(s.last()) {
                Err(NumberError::InvalidDigit)
            } else if n * 10 + digit_value(s.last()) > max {
                Err(NumberError::TooLarge)
            } else {
                Ok(n * 10 + digit_value(s.last()))
            },
        }
    }
}

/// The number up to `max` that a text denotes: digits, behind an optional `+`.
pub open spec fn read_number(s: Seq<char>, max: nat) -> Result<nat, NumberError> {
    if s.len() == 0 {
        Err(NumberError::Empty)
    } else if s[0] == '+' && s.len() > 1 {
        read_digits(s.skip(1), max)
    } else {
        read_digits(s, max)
    }
}

/// An error while reading digits stays, whatever follows.
proof fn lemma_read_digits_stuck(s: Seq<char>, t: Seq<char>, max: nat)
    requires
        read_digits(s, max) is Err,
    ensures
        read_digits(s + t, max) == read_digits(s, max),
    decreases t.len(),
{
    if t.len() == 0 {
        assert(s + t =~= s);
    } else {
        lemma_read_digits_stuck(s, t.drop_last(), max);
        assert((s + t).drop_last() =~= s + t.drop_last());
    }
}

/// Reads a number up to `max`.
pub fn parse_number(s: &str, max: u64) -> (r: Result<u64, NumberError>)
    ensures
        match r {
            Ok(n) => read_number(s@, max as nat) == Ok::<nat, NumberError>(n as nat),
            Err(e) => read_number(s@, max as nat) == Err::<nat, NumberError>(e),
        },
{
    let chars = chars_of(s);
    if chars.len() == 0 {
        return Err(NumberError::Empty);
    }
    let start: usize = if chars[0] == '+' && chars.len() > 1 {
        1
    } else {
        0
    };
    let ghost digits = chars@.skip(start as int);
    let mut n: u64 = 0;
    let mut i: usize = start;
    proof {
        assert(digits.take(0) =~= seq![]);
        assert(chars@.skip(0) =~= chars@);
    }
    while i < chars.len()
        invariant
            digits == chars@.skip(start as int),
            read_number(s@, max as nat) == read_digits(digits, max as nat),
            start <= i <= chars@.len(),
            n <= max,
            read_digits(digits.take(i - start), max as nat) == Ok::<nat, NumberError>(n as nat),
        decreases chars@.len() - i,
    {
        let c: char = chars[i];
        let ghost prefix = digits.take(i - start + 1);
        proof {
            assert(prefix.drop_last() =~= digits.take(i - start));
            assert(prefix.last() == c);
            assert(prefix + digits.skip(i - start + 1) =~= digits);
            if read_digits(prefix, max as nat) is Err {
                lemma_read_digits_stuck(prefix, digits.skip(i - start + 1), max as nat);
            }
        }
        match digit_of(c) {
            None => {
                return Err(NumberError::InvalidDigit);
            },
            Some(d) => {
                if n > max / 10 || d as u64 > max - n * 10 {
                    return Err(NumberError::TooLarge);
                }
                n = n * 10 + d as u64;
            },
        }
        i += 1;
    }
    proof {
        assert(digits.take(i - start) =~= digits);
    }
    Ok(n)
}

/// A number's decimal notation is read back as that number.
pub proof fn lemma_read_decimal(n: nat, max: nat)
    requires
        n <= max,
    ensures
        read_number(decimal(n), max) == Ok::<nat, NumberError>(n),
{
    lemma_decimal_digits(n);
    assert(is_digit(decimal(n)[0]));
    lemma_read_digits_decimal(n, max);
}

proof fn lemma_read_digits_decimal(n: nat, max: nat)
    requires
        n <= max,
    ensures
        read_digits(decimal(n), max) == Ok::<nat, NumberError>(n),
    decreases n,
{
    lemma_digit_char(n % 10);
    if n < 10 {
        assert(decimal(n).drop_last() =~= seq![]);
        assert(decimal(n).last() == digit_char(n));
        assert(read_digits(decimal(n).drop_last(), max) == Ok::<nat, NumberError>(0));
    } else {
        lemma_read_digits_decimal(n / 10, max);
        assert(decimal(n).drop_last() =~= decimal(n / 10));
    }
}

// ---------------------------------------------------------------------------
// Lists of texts
// ---------------------------------------------------------------------------

/// The views of strings.
pub open spec fn views(v: Seq<String>) -> Seq<Seq<char>> {
    v.map_values(|s: String| s@)
}

/// The views of string slices.
pub open spec fn str_views(v: Seq<&str>) -> Seq<Seq<char>> {
    v.map_values(|s: &str| s@)
}

/// Owned copies of the given texts.
pub fn owned(v: &[&str]) -> (r: Vec<String>)
    ensures
        views(r@) == str_views(v@),
{
    let mut r: Vec<String> = Vec::new();
    let mut i: usize = 0;
    while i < v.len()
        invariant
            i <= v@.len(),
            views(r@) == str_views(v@).take(i as int),
        decreases v@.len() - i,
    {
        let ghost before = r@;
        r.push(v[i].to_owned());
        proof {
            assert(views(r@) =~= views(before).push(v@[i as int]@));
            assert(str_views(v@).take(i as int + 1) =~= str_views(v@).take(i as int).push(
                v@[i as int]@,
            ));
        }
        i += 1;
    }
    proof {
        assert(str_views(v@).take(i as int) =~= str_views(v@));
    }
    r
}

/// Copies of the given strings.
pub fn copies(v: &[String]) -> (r: Vec<String>)
    ensures
        r@ == v@,
{
    let mut r: Vec<String> = Vec::new();
    let mut i: usize = 0;
    while i < v.len()
        invariant
            i <= v@.len(),
            r@ == v@.take(i as int),
        decreases v@.len() - i,
    {
        r.push(v[i].clone());
        proof {
            assert(v@.take(i as int + 1) =~= v@.take(i as int).push(v@[i as int]));
        }
        i += 1;
    }
    proof {
        assert(v@.take(i as int) =~= v@);
    }
    r
}

/// Texts joined with `sep` between them.
pub open spec fn joined(v: Seq<Seq<char>>, sep: Seq<char>) -> Seq<char>
    decreases v.len(),
{
    if v.len() == 0 {
        seq![]
    } else if v.len() == 1 {
        v[0]
    } else {
        joined(v.drop_last(), sep) + sep + v.last()
    }
}

/// Joins texts with `sep` between them.
pub fn join(v: &[String], sep: &str) -> (s: String)
    ensures
        s@ == joined(views(v@), sep@),
{
    let mut s = String::new();
    let ghost vv = views(v@);
    let mut i: usize = 0;
    proof {
        assert(vv.take(0) =~= seq![]);
    }
    while i < v.len()
        invariant
            vv == views(v@),
            i <= v@.len(),
            s@ == joined(vv.take(i as int), sep@),
        decreases v@.len() - i,
    {
        proof {
            assert(vv.take(i as int + 1).drop_last() =~= vv.take(i as int));
            assert(vv.take(i as int + 1).last() == v@[i as int]@);
        }
        if i > 0 {
            s.append(sep);
        }
        s.append(&v[i]);
        proof {
            if i == 0 {
                assert(s@ =~= v@[0]@);
            }
        }
        i += 1;
    }
    proof {
        assert(vv.take(i as int) =~= vv);
    }
    s
}

// ---------------------------------------------------------------------------
// Searching, trimming and lines
// ---------------------------------------------------------------------------

/// Where `pat` occurs first in `s`.
pub open spec fn find_text(s: Seq<char>, pat: Seq<char>) -> Option<nat>
    decreases s.len(),
{
    if has_prefix(s, pat) {
        Some(0)
    } else if s.len() == 0 {
        None
    } else {
        match find_text(s.drop_first(), pat) {
            Some(i) => Some(i + 1),
            None => None,
        }
    }
}

/// Whether `pat` stands in `s` at `at`.
fn stands_at(s: &Vec<char>, at: usize, pat: &Vec<char>) -> (b: bool)
    requires
        at <= s@.len(),
    ensures
        b == has_prefix(s@.skip(at as int), pat@),
{
    let ghost tail = s@.skip(at as int);
    let n: usize = s.len();
    if pat.len() > n - at {
        return false;
    }
    let mut i: usize = 0;
    while i < pat.len()
        invariant
            n == s@.len(),
            i <= pat@.len() <= n - at,
            at <= n,
            tail == s@.skip(at as int),
            forall|j: int| 0 <= j < i ==> tail[j] == pat@[j],
        decreases pat@.len() - i,
    {
        if s[at + i] != pat[i] {
            proof {
                assert(tail.take(pat@.len() as int)[i as int] == s@[at + i]);
            }
            return false;
        }
        i += 1;
    }
    proof {
        assert(tail.take(pat@.len() as int) =~= pat@);
    }
    true
}

/// Finds where `pat` occurs first in `s`, counted in characters.
pub fn find(s: &str, pat: &str) -> (at: Option<usize>)
    ensures
        match at {
            Some(i) => find_text(s@, pat@) == Some(i as nat) && i + pat@.len() <= s@.len()
                <= usize::MAX,
            None => find_text(s@, pat@) is None,
        },
{
    let chars = chars_of(s);
    let p = chars_of(pat);
    let n: usize = chars.len();
    let mut i: usize = 0;
    proof {
        assert(s@.skip(0) =~= s@);
    }
    loop
        invariant
            chars@ == s@,
            p@ == pat@,
            n == s@.len(),
            i <= s@.len(),
            find_text(s@, pat@) == (match find_text(s@.skip(i as int), pat@) {
                Some(k) => Some((i + k) as nat),
                None => None,
            }),
        decreases s@.len() - i,
    {
        if stands_at(&chars, i, &p) {
            return Some(i);
        }
        if i >= chars.len() {
            return None;
        }
        proof {
            assert(s@.skip(i as int).drop_first() =~= s@.skip(i as int + 1));
        }
        i += 1;
    }
}

/// Whether `pat` occurs in `s`.
pub fn contains(s: &str, pat: &str) -> (b: bool)
    ensures
        b == (find_text(s@, pat@) is Some),
{
    find(s, pat).is_some()
}

/// `s` without leading white space.
pub open spec fn trimmed_start(s: Seq<char>) -> Seq<char>
    decreases s.len(),
{
    if s.len() > 0 && is_white(s[0]) {
        trimmed_start(s.drop_first())
    } else {
        s
    }
}

/// `s` without trailing white space.
pub open spec fn trimmed_end(s: Seq<char>) -> Seq<char>
    decreases s.len(),
{
    if s.len() > 0 && is_white(s.last()) {
        trimmed_end(s.drop_last())
    } else {
        s
    }
}

/// `s` without leading and trailing white space.
pub open spec fn trimmed(s: Seq<char>) -> Seq<char> {
    trimmed_end(trimmed_start(s))
}

/// Removes leading and trailing white space.
pub fn trim(s: &str) -> (r: String)
    ensures
        r@ == trimmed(s@),
{
    let chars = chars_of(s);
    let mut a: usize = 0;
    proof {
        assert(s@.skip(0) =~= s@);
    }
    while a < chars.len() && white(chars[a])
        invariant
            chars@ == s@,
            a <= s@.len(),
            trimmed_start(s@) == trimmed_start(s@.skip(a as int)),
        decreases s@.len() - a,
    {
        proof {
            assert(s@.skip(a as int).drop_first() =~= s@.skip(a as int + 1));
        }
        a += 1;
    }
    let ghost t = s@.skip(a as int);
    let mut b: usize = chars.len();
    proof {
        assert(t =~= s@.subrange(a as int, b as int));
    }
    while b > a && white(chars[b - 1])
        invariant
            chars@ == s@,
            a <= b <= s@.len(),
            trimmed_end(t) == trimmed_end(s@.subrange(a as int, b as int)),
        decreases b - a,
    {
        proof {
            let cur = s@.subrange(a as int, b as int);
            assert(cur.last() == s@[b - 1]);
            assert(cur.drop_last() =~= s@.subrange(a as int, b as int - 1));
        }
        b -= 1;
    }
    proof {
        let cur = s@.subrange(a as int, b as int);
        if cur.len() > 0 {
            assert(cur.last() == s@[b - 1]);
        }
    }
    string_of(&chars[a..b])
}

/// The lines of a text: what stands between line feeds, without a carriage
/// return right before one. A line feed at the very end opens no line.
pub open spec fn lines_of(s: Seq<char>) -> Seq<Seq<char>>
    decreases s.len(),
{
    if s.len() == 0 {
        seq![]
    } else {
        let i = char_index(s, '\n') as int;
        if i >= s.len() {
            seq![s]
        } else {
            let line = if i > 0 && s[i - 1] == '\r' {
                s.take(i - 1)
            } else {
                s.take(i)
            };
            seq![line] + lines_of(s.skip(i + 1))
        }
    }
}

/// Splits a text into lines.
pub fn lines(s: &str) -> (r: Vec<String>)
    ensures
        views(r@) == lines_of(s@),
{
    let chars = chars_of(s);
    let mut r: Vec<String> = Vec::new();
    let mut at: usize = 0;
    proof {
        assert(s@.skip(0) =~= s@);
        assert(views(r@) + lines_of(s@) =~= lines_of(s@));
    }
    while at < chars.len()
        invariant
            chars@ == s@,
            at <= s@.len(),
            views(r@) + lines_of(s@.skip(at as int)) == lines_of(s@),
        decreases s@.len() - at,
    {
        let ghost tail = s@.skip(at as int);
        let mut i: usize = at;
        while i < chars.len() && chars[i] != '\n'
            invariant
                chars@ == s@,
                tail == s@.skip(at as int),
                at <= i <= s@.len(),
                forall|j: int| 0 <= j < i - at ==> tail[j] != '\n',
            decreases s@.len() - i,
        {
            i += 1;
        }
        let ghost before = r@;
        proof {
            lemma_char_index(tail, '\n');
            if i < s@.len() {
                assert(tail[i - at] == '\n');
                lemma_char_index_at(tail, '\n', i - at);
            }
        }
        if i >= chars.len() {
            r.push(string_of(&chars[at..i]));
            proof {
                assert(s@.subrange(at as int, i as int) =~= tail);
                assert(views(r@) =~= views(before) + seq![tail]);
            }
            return r;
        }
        let end: usize = if i > at && chars[i - 1] == '\r' {
            i - 1
        } else {
            i
        };
        r.push(string_of(&chars[at..end]));
        proof {
            let line = s@.subrange(at as int, end as int);
            assert(line =~= tail.take(end - at));
            assert(tail.skip(i - at + 1) =~= s@.skip(i as int + 1));
            assert(views(r@) =~= views(before).push(line));
            let rest = lines_of(s@.skip(i as int + 1));
            assert(views(before) + (seq![line] + rest) =~= views(r@) + rest);
        }
        at = i + 1;
    }
    proof {
        assert(views(r@) + lines_of(s@.skip(at as int)) =~= views(r@));
    }
    r
}

/// The characters from `from` on, as a string.
pub fn tail_of(s: &str, from: usize) -> (r: String)
    requires
        from <= s@.len(),
    ensures
        r@ == s@.skip(from as int),
{
    let n = s.unicode_len();
    let r = s.substring_char(from, n).to_owned();
    proof {
        assert(s@.subrange(from as int, n as int) =~= s@.skip(from as int));
    }
    r
}

/// The first `n` characters, as a string.
pub fn head_of(s: &str, n: usize) -> (r: String)
    requires
        n <= s@.len(),
    ensures
        r@ == s@.take(n as int),
{
    let r = s.substring_char(0, n).to_owned();
    proof {
        assert(s@.subrange(0, n as int) =~= s@.take(n as int));
    }
    r
}

// ---------------------------------------------------------------------------
// Paths
// ---------------------------------------------------------------------------

/// A path with `name` appended: behind a slash, unless the path ends in one or
/// is empty. An absolute `name` replaces the path.
pub open spec fn path_joined(base: Seq<char>, name: Seq<char>) -> Seq<char> {
    if name.len() > 0 && name[0] == '/' {
        name
    } else if base.len() == 0 || base.last() == '/' {
        base + name
    } else {
        base + "/"@ + name
    }
}

/// Appends `name` to a path.
pub fn path_join(base: &str, name: &str) -> (path: String)
    ensures
        path@ == path_joined(base@, name@),
{
    let n = chars_of(name);
    let b = chars_of(base);
    if n.len() > 0 && n[0] == '/' {
        name.to_owned()
    } else if b.len() == 0 || b[b.len() - 1] == '/' {
        cat2(base, name)
    } else {
        cat3(base, "/", name)
    }
}

// ---------------------------------------------------------------------------
// Hexadecimal
// ---------------------------------------------------------------------------

/// The lower-case hexadecimal digit for `d < 16`.
pub open spec fn lower_hex_digit(d: nat) -> char {
    if d < 10 {
        (48 + d) as char
    } else {
        (87 + d) as char
    }
}

/// Two lower-case hexadecimal digits.
pub open spec fn lower_hex2(n: nat) -> Seq<char> {
    seq![lower_hex_digit(n / 16), lower_hex_digit(n % 16)]
}

fn lower_hex_char(d: u8) -> (c: char)
    requires
        d < 16,
    ensures
        c == lower_hex_digit(d as nat),
{
    if d < 10 {
        (48 + d) as char
    } else {
        (87 + d) as char
    }
}

/// Two lower-case hexadecimal digits.
pub fn lower_hex_pair(n: u8) -> (s: String)
    ensures
        s@ == lower_hex2(n as nat),
{
    let mut s = String::new();
    s.push(lower_hex_char(n / 16));
    s.push(lower_hex_char(n % 16));
    proof {
        assert(s@ =~= lower_hex2(n as nat));
    }
    s
}

// ---------------------------------------------------------------------------
// Signed numbers
// ---------------------------------------------------------------------------

/// The usual decimal notation of a possibly negative number.
pub open spec fn signed_decimal(n: int) -> Seq<char> {
    if n < 0 {
        "-"@ + decimal((-n) as nat)
    } else {
        decimal(n as nat)
    }
}

/// Renders a possibly negative number in decimal.
pub fn signed_string(n: i32) -> (s: String)
    ensures
        s@ == signed_decimal(n as int),
{
    if n < 0 {
        let m: i64 = -(n as i64);
        cat2("-", &decimal_string(m as u64))
    } else {
        decimal_string(n as u64)
    }
}

/// Why a text is not a signed number.
#[derive(Debug, Clone, Copy, PartialEq, Eq, Structural)]
pub enum SignedError {
    Number(NumberError),
    TooSmall,
}

/// The sentence for a text that is not a signed number.
pub open spec fn signed_error_text(e: SignedError) -> Seq<char> {
    match e {
        SignedError::Number(n) => number_error_text(n),
        SignedError::TooSmall => "number too small to fit in target type"@,
    }
}

impl SignedError {
    /// The sentence for a text that is not a signed number.
    pub fn message(self) -> (s: &'static str)
        ensures
            s@ == signed_error_text(self),
    {
        match self {
            SignedError::Number(n) => n.message(),
            SignedError::TooSmall => "number too small to fit in target type",
        }
    }
}

/// The 32-bit number that a text denotes: digits, behind an optional sign.
pub open spec fn read_i32(s: Seq<char>) -> Result<int, SignedError> {
    if s.len() > 1 && s[0] == '-' {
        match read_digits(s.skip(1), 0x8000_0000) {
            Ok(n) => Ok(-n),
            Err(NumberError::TooLarge) => Err(SignedError::TooSmall),
            Err(e) => Err(SignedError::Number(e)),
        }
    } else {
        match read_number(s, 0x7fff_ffff) {
            Ok(n) => Ok(n as int),
            Err(e) => Err(SignedError::Number(e)),
        }
    }
}

/// Reads a 32-bit number.
pub fn parse_i32(s: &str) -> (r: Result<i32, SignedError>)
    ensures
        match r {
            Ok(n) => read_i32(s@) == Ok::<int, SignedError>(n as int),
            Err(e) => read_i32(s@) == Err::<int, SignedError>(e),
        },
{
    let chars = chars_of(s);
    if chars.len() > 1 && chars[0] == '-' {
        if chars[1] == '+' {
            proof {
                assert(!is_digit('+'));
                lemma_read_digits_first(s@.skip(1), 0x8000_0000);
            }
            return Err(SignedError::Number(NumberError::InvalidDigit));
        }
        let tail = tail_of(s, 1);
        proof {
            assert(tail@[0] == s@[1]);
        }
        match parse_number(&tail, 0x8000_0000) {
            Ok(n) => {
                proof {
                    lemma_read_digits_bounded(s@.skip(1), 0x8000_0000);
                }
                let m: i64 = -(n as i64);
                Ok(m as i32)
            },
            Err(NumberError::TooLarge) => Err(SignedError::TooSmall),
            Err(e) => Err(SignedError::Number(e)),
        }
    } else {
        match parse_number(s, 0x7fff_ffff) {
            Ok(n) => {
                proof {
                    if s@.len() > 0 && s@[0] == '+' && s@.len() > 1 {
                        lemma_read_digits_bounded(s@.skip(1), 0x7fff_ffff);
                    } else {
                        lemma_read_digits_bounded(s@, 0x7fff_ffff);
                    }
                }
                Ok(n as i32)
            },
            Err(e) => Err(SignedError::Number(e)),
        }
    }
}

/// A number that was read is within its limit.
proof fn lemma_read_digits_bounded(s: Seq<char>, max: nat)
    ensures
        read_digits(s, max) is Ok ==> read_digits(s, max)->Ok_0 <= max,
{
}

/// A text that does not begin with a digit is no number.
proof fn lemma_read_digits_first(s: Seq<char>, max: nat)
    requires
        s.len() > 0,
        !is_digit(s[0]),
    ensures
        read_digits(s, max) == Err::<nat, NumberError>(NumberError::InvalidDigit),
{
    let first = s.take(1);
    assert(first.drop_last() =~= seq![]);
    assert(read_digits(first.drop_last(), max) == Ok::<nat, NumberError>(0));
    assert(first.last() == s[0]);
    lemma_read_digits_stuck(first, s.skip(1), max);
    assert(first + s.skip(1) =~= s);
}

// ---------------------------------------------------------------------------
// Words
// ---------------------------------------------------------------------------

/// How many characters from the start of `s` are not white space.
pub open spec fn word_len(s: Seq<char>) -> nat
    decreases s.len(),
{
    if s.len() == 0 || is_white(s[0]) {
        0
    } else {
        1 + word_len(s.drop_first())
    }
}

/// A word is no longer than the text it begins.
pub proof fn lemma_word_len(s: Seq<char>)
    ensures
        word_len(s) <= s.len(),
    decreases s.len(),
{
    if s.len() > 0 && !is_white(s[0]) {
        lemma_word_len(s.drop_first());
    }
}

/// The words of a text: what stands between white space.
pub open spec fn words(s: Seq<char>) -> Seq<Seq<char>>
    decreases s.len(),
{
    if s.len() == 0 {
        seq![]
    } else if is_white(s[0]) {
        words(s.drop_first())
    } else {
        proof {
            lemma_word_len(s);
        }
        let n = word_len(s) as int;
        seq![s.take(n)] + words(s.skip(n))
    }
}

/// Splits a text into words.
pub fn split_whitespace(s: &str) -> (r: Vec<String>)
    ensures
        views(r@) == words(s@),
{
    let chars = chars_of(s);
    let mut r: Vec<String> = Vec::new();
    let mut at: usize = 0;
    proof {
        assert(s@.skip(0) =~= s@);
        assert(views(r@) + words(s@) =~= words(s@));
    }
    while at < chars.len()
        invariant
            chars@ == s@,
            at <= s@.len(),
            views(r@) + words(s@.skip(at as int)) == words(s@),
        decreases s@.len() - at,
    {
        let ghost tail = s@.skip(at as int);
        if white(chars[at]) {
            proof {
                assert(tail.drop_first() =~= s@.skip(at as int + 1));
            }
            at += 1;
            continue;
        }
        let mut end: usize = at;
        while end < chars.len() && !white(chars[end])
            invariant
                chars@ == s@,
                at <= end <= s@.len(),
                tail == s@.skip(at as int),
                word_len(tail) == end - at + word_len(s@.skip(end as int)),
            decreases s@.len() - end,
        {
            proof {
                assert(s@.skip(end as int).drop_first() =~= s@.skip(end as int + 1));
            }
            end += 1;
        }
        let ghost before = r@;
        r.push(string_of(&chars[at..end]));
        proof {
            let n = end - at;
            assert(word_len(s@.skip(end as int)) == 0);
            assert(tail.take(n) =~= s@.subrange(at as int, end as int));
            assert(tail.skip(n) =~= s@.skip(end as int));
            let rest = words(s@.skip(end as int));
            assert(views(r@) =~= views(before).push(tail.take(n)));
            assert(views(before) + (seq![tail.take(n)] + rest) =~= views(r@) + rest);
            assert(!is_white(tail[0]));
            assert(n > 0) by {
                if n == 0 {
                    assert(word_len(tail) == 0);
                }
            }
        }
        at = end;
    }
    proof {
        assert(views(r@) + words(s@.skip(at as int)) =~= views(r@));
    }
    r
}

// ---------------------------------------------------------------------------
// Order
// ---------------------------------------------------------------------------

/// Whether a text comes before another: by the first character in which they
/// differ, and a text before what it begins.
pub open spec fn before(a: Seq<char>, b: Seq<char>) -> bool
    decreases a.len(),
{
    if b.len() == 0 {
        false
    } else if a.len() == 0 {
        true
    } else if a[0] != b[0] {
        a[0] < b[0]
    } else {
        before(a.drop_first(), b.drop_first())
    }
}

/// No text comes before itself.
proof fn lemma_before_irreflexive(a: Seq<char>)
    ensures
        !before(a, a),
    decreases a.len(),
{
    if a.len() > 0 {
        lemma_before_irreflexive(a.drop_first());
    }
}

/// Of two texts that differ, one comes before the other.
proof fn lemma_before_total(a: Seq<char>, b: Seq<char>)
    ensures
        before(a, b) || before(b, a) || a == b,
        before(a, b) ==> !before(b, a),
    decreases a.len(),
{
    if a.len() == 0 && b.len() == 0 {
        assert(a =~= b);
    } else if a.len() > 0 && b.len() > 0 && a[0] == b[0] {
        lemma_before_total(a.drop_first(), b.drop_first());
        if a.drop_first() == b.drop_first() {
            assert(a =~= seq![a[0]] + a.drop_first());
            assert(b =~= seq![b[0]] + b.drop_first());
        }
    }
}

/// What comes before a text comes before all that this comes before.
proof fn lemma_before_transitive(a: Seq<char>, b: Seq<char>, c: Seq<char>)
    requires
        before(a, b),
        before(b, c),
    ensures
        before(a, c),
    decreases a.len(),
{
    if a.len() > 0 && a[0] == b[0] && b[0] == c[0] {
        lemma_before_transitive(a.drop_first(), b.drop_first(), c.drop_first());
    }
}

/// `before` is a strict total order.
pub proof fn lemma_before_order(a: Seq<char>, b: Seq<char>, c: Seq<char>)
    ensures
        !before(a, a),
        before(a, b) && before(b, c) ==> before(a, c),
        before(a, b) || before(b, a) || a == b,
        before(a, b) ==> !before(b, a),
{
    lemma_before_irreflexive(a);
    lemma_before_total(a, b);
    if before(a, b) && before(b, c) {
        lemma_before_transitive(a, b, c);
    }
}

/// Whether a text comes before another.
pub fn comes_before(a: &str, b: &str) -> (r: bool)
    ensures
        r == before(a@, b@),
{
    let x = chars_of(a);
    let y = chars_of(b);
    let mut i: usize = 0;
    proof {
        assert(a@.skip(0) =~= a@);
        assert(b@.skip(0) =~= b@);
    }
    while i < x.len() && i < y.len()
        invariant
            x@ == a@,
            y@ == b@,
            i <= x@.len(),
            i <= y@.len(),
            before(a@, b@) == before(a@.skip(i as int), b@.skip(i as int)),
        decreases x@.len() - i,
    {
        proof {
            assert(a@.skip(i as int)[0] == a@[i as int]);
            assert(b@.skip(i as int)[0] == b@[i as int]);
            assert(a@.skip(i as int).drop_first() =~= a@.skip(i as int + 1));
            assert(b@.skip(i as int).drop_first() =~= b@.skip(i as int + 1));
        }
        if x[i] != y[i] {
            return x[i] < y[i];
        }
        i += 1;
    }
    i < y.len()
}

} // verus!
