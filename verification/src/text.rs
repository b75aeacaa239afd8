//! Character-level helpers shared by the parsers of this crate.

use vstd::prelude::*;
use vstd::std_specs::iter::IteratorSpec;
use vstd::utf8::*;

verus! {

/// The characters of `s`, in order.
pub fn chars_of(s: &str) -> (v: Vec<char>)
    ensures
        v@ == s@,
{
    let mut v: Vec<char> = Vec::new();
    for c in it: s.chars()
        invariant
            v@ == it.seq().take(it.index()),
            it.seq() == s@,
    {
        v.push(c);
    }
    v
}

/// `String::from_iter` of std, on a slice of characters: the string that holds
/// exactly those characters, in order.
#[verifier::external_body]
pub(crate) fn string_of(chars: &[char]) -> (s: String)
    ensures
        s@ == chars@,
{
    String::from_iter(chars)
}

/// Whether two string slices hold the same characters.
pub fn str_eq(a: &str, b: &str) -> (r: bool)
    ensures
        r == (a@ == b@),
{
    let x = a.as_bytes();
    let y = b.as_bytes();
    proof {
        encode_utf8_decode_utf8(a@);
        encode_utf8_decode_utf8(b@);
    }
    if x.len() != y.len() {
        return false;
    }
    let mut i: usize = 0;
    while i < x.len()
        invariant
            i <= x.len(),
            x.len() == y.len(),
            x@ == encode_utf8(a@),
            y@ == encode_utf8(b@),
            forall|j: int| 0 <= j < i ==> x@[j] == y@[j],
        decreases x.len() - i,
    {
        if x[i] != y[i] {
            return false;
        }
        i += 1;
    }
    assert(x@ =~= y@);
    true
}

/// The characters with the Unicode property `White_Space`.
pub open spec fn is_whitespace(c: char) -> bool {
    ||| '\u{9}' <= c <= '\u{D}'
    ||| c == ' '
    ||| c == '\u{85}'
    ||| c == '\u{A0}'
    ||| c == '\u{1680}'
    ||| '\u{2000}' <= c <= '\u{200A}'
    ||| c == '\u{2028}'
    ||| c == '\u{2029}'
    ||| c == '\u{202F}'
    ||| c == '\u{205F}'
    ||| c == '\u{3000}'
}

pub fn whitespace(c: char) -> (b: bool)
    ensures
        b == is_whitespace(c),
{
    ('\u{9}' <= c && c <= '\u{D}') || c == ' ' || c == '\u{85}' || c == '\u{A0}' || c
        == '\u{1680}' || ('\u{2000}' <= c && c <= '\u{200A}') || c == '\u{2028}' || c
        == '\u{2029}' || c == '\u{202F}' || c == '\u{205F}' || c == '\u{3000}'
}

/// The first position at or after `i` that holds no white space.
pub open spec fn word_start(s: Seq<char>, i: int) -> int
    decreases s.len() - i,
{
    if 0 <= i < s.len() && is_whitespace(s[i]) {
        word_start(s, i + 1)
    } else {
        i
    }
}

/// The first position at or after `i` that holds white space, or the end.
pub open spec fn word_end(s: Seq<char>, i: int) -> int
    decreases s.len() - i,
{
    if 0 <= i < s.len() && !is_whitespace(s[i]) {
        word_end(s, i + 1)
    } else {
        i
    }
}

/// The maximal runs of characters other than white space that `s` holds from
/// position `i` on, in order.
pub open spec fn words_from(s: Seq<char>, i: int) -> Seq<Seq<char>>
    decreases s.len() - i,
{
    let b = word_start(s, i);
    let e = word_end(s, b);
    if 0 <= i <= b < e <= s.len() {
        seq![s.subrange(b, e)] + words_from(s, e)
    } else {
        Seq::empty()
    }
}

/// The words of `s`: its maximal runs of characters other than white space.
pub open spec fn words(s: Seq<char>) -> Seq<Seq<char>> {
    words_from(s, 0)
}

/// The end of `s` once trailing white space is dropped: the least `n` such
/// that only white space stands from `n` on.
pub open spec fn trimmed_end(s: Seq<char>, n: int) -> int
    decreases n,
{
    if 0 < n <= s.len() && is_whitespace(s[n - 1]) {
        trimmed_end(s, n - 1)
    } else {
        n
    }
}

/// `s` without leading and trailing white space.
pub open spec fn trimmed(s: Seq<char>) -> Seq<char> {
    let b = word_start(s, 0);
    let e = trimmed_end(s, s.len() as int);
    if b < e {
        s.subrange(b, e)
    } else {
        Seq::empty()
    }
}

/// `c` with an ASCII capital folded to its small letter.
pub open spec fn lower(c: char) -> char {
    if 'A' <= c <= 'Z' {
        ((c as u32) + 32) as char
    } else {
        c
    }
}

/// `s` with its ASCII capitals folded to small letters.
pub open spec fn lowered(s: Seq<char>) -> Seq<char> {
    s.map_values(|c: char| lower(c))
}

/// Whether `s` holds at least one character and no white space.
pub open spec fn is_word(s: Seq<char>) -> bool {
    s.len() > 0 && forall|i: int| 0 <= i < s.len() ==> !is_whitespace(#[trigger] s[i])
}

proof fn word_end_of_word(s: Seq<char>, i: int)
    requires
        is_word(s),
        0 <= i <= s.len(),
    ensures
        word_end(s, i) == s.len(),
    decreases s.len() - i,
{
    if i < s.len() {
        word_end_of_word(s, i + 1);
    }
}

/// A text that holds no white space is its own only word, and trimming
/// leaves it as it is.
pub proof fn word_is_its_own_trim(s: Seq<char>)
    requires
        is_word(s),
    ensures
        words(s) == seq![s],
        trimmed(s) == s,
{
    word_end_of_word(s, 0);
    assert(s.subrange(0, s.len() as int) =~= s);
    assert(words_from(s, s.len() as int) =~= Seq::<Seq<char>>::empty());
    assert(words(s) =~= seq![s]);
}

fn scan_word_start(s: &[char], i: usize) -> (j: usize)
    requires
        i <= s.len(),
    ensures
        j == word_start(s@, i as int),
        i <= j <= s.len(),
{
    let mut j: usize = i;
    while j < s.len() && whitespace(s[j])
        invariant
            i <= j <= s.len(),
            word_start(s@, i as int) == word_start(s@, j as int),
        decreases s.len() - j,
    {
        j += 1;
    }
    j
}

fn scan_word_end(s: &[char], i: usize) -> (j: usize)
    requires
        i <= s.len(),
    ensures
        j == word_end(s@, i as int),
        i <= j <= s.len(),
{
    let mut j: usize = i;
    while j < s.len() && !whitespace(s[j])
        invariant
            i <= j <= s.len(),
            word_end(s@, i as int) == word_end(s@, j as int),
        decreases s.len() - j,
    {
        j += 1;
    }
    j
}

/// The views of a vector of strings.
pub open spec fn string_views(v: Seq<String>) -> Seq<Seq<char>> {
    v.map_values(|s: String| s@)
}

/// Splits `s` on white space, as `str::split_whitespace` does.
pub fn split_words(s: &str) -> (r: Vec<String>)
    ensures
        string_views(r@) == words(s@),
{
    let chars = chars_of(s);
    let t = chars.as_slice();
    let mut out: Vec<String> = Vec::new();
    let mut i: usize = 0;
    proof {
        assert(string_views(out@) =~= Seq::<Seq<char>>::empty());
    }
    loop
        invariant
            i <= t.len(),
            t@ == s@,
            words(s@) == string_views(out@) + words_from(t@, i as int),
        decreases t.len() - i,
    {
        let b = scan_word_start(t, i);
        let e = scan_word_end(t, b);
        if b < e {
            let word = string_of(vstd::slice::slice_subrange(t, b, e));
            proof {
                let before = string_views(out@);
                let after = string_views(out@.push(word));
                assert(after =~= before.push(word@));
                assert(before + (seq![word@] + words_from(t@, e as int)) =~= after + words_from(
                    t@,
                    e as int,
                ));
            }
            out.push(word);
            i = e;
        } else {
            proof {
                assert(string_views(out@) + Seq::<Seq<char>>::empty() =~= string_views(out@));
            }
            return out;
        }
    }
}

/// Drops leading and trailing white space, as `str::trim` does.
pub fn trim(s: &str) -> (r: String)
    ensures
        r@ == trimmed(s@),
{
    let chars = chars_of(s);
    let t = chars.as_slice();
    let b = scan_word_start(t, 0);
    let mut e: usize = t.len();
    while e > 0 && whitespace(t[e - 1])
        invariant
            e <= t.len(),
            trimmed_end(t@, t.len() as int) == trimmed_end(t@, e as int),
        decreases e,
    {
        e -= 1;
    }
    if b < e {
        string_of(vstd::slice::slice_subrange(t, b, e))
    } else {
        String::new()
    }
}

fn fold(c: char) -> (r: char)
    ensures
        r == lower(c),
{
    if 'A' <= c && c <= 'Z' {
        ((c as u8) + 32) as char
    } else {
        c
    }
}

/// Whether `a` equals `b` once the ASCII capitals of `a` are folded.
pub fn lowered_eq(a: &str, b: &str) -> (r: bool)
    ensures
        r == (lowered(a@) == b@),
{
    let x = chars_of(a);
    let y = chars_of(b);
    if x.len() != y.len() {
        return false;
    }
    let mut i: usize = 0;
    while i < x.len()
        invariant
            i <= x.len(),
            x.len() == y.len(),
            x@ == a@,
            y@ == b@,
            forall|j: int| 0 <= j < i ==> lower(x@[j]) == y@[j],
        decreases x.len() - i,
    {
        if fold(x[i]) != y[i] {
            assert(lowered(a@)[i as int] != b@[i as int]);
            return false;
        }
        i += 1;
    }
    assert(lowered(a@) =~= b@);
    true
}

} // verus!
