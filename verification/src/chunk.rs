//! Chunks: the pieces a document falls into at its blank lines, and the
//! identifiers they go by in the vector store.
//!
//! A chunk's identifier is the document's path, a hyphen, and the chunk's
//! position counted from zero. It depends on nothing else, so ingesting an
//! unchanged document again names every chunk as before.

use crate::text::{chars_of, string_of, string_views};
use vstd::prelude::*;

verus! {

/// Whether a blank line, that is two line feeds, stands at `i`.
pub open spec fn boundary_at(s: Seq<char>, i: int) -> bool {
    0 <= i && i + 1 < s.len() && s[i] == '\n' && s[i + 1] == '\n'
}

/// The first position at or after `i` where a blank line stands, or the end
/// of the text.
pub open spec fn chunk_end(s: Seq<char>, i: int) -> int
    decreases s.len() - i,
{
    if 0 <= i < s.len() && !boundary_at(s, i) {
        chunk_end(s, i + 1)
    } else {
        i
    }
}

/// The chunks of the text from position `i` on.
pub open spec fn chunks_from(s: Seq<char>, i: int) -> Seq<Seq<char>>
    decreases s.len() - i,
{
    let e = chunk_end(s, i);
    if 0 <= i <= e && e + 2 <= s.len() {
        seq![s.subrange(i, e)] + chunks_from(s, e + 2)
    } else {
        seq![s.subrange(i, s.len() as int)]
    }
}

/// The chunks of a document: the pieces between its blank lines, in order.
/// Blank lines are found from left to right and do not overlap; a text
/// without one is a single chunk.
pub open spec fn chunks(s: Seq<char>) -> Seq<Seq<char>> {
    chunks_from(s, 0)
}

/// The pieces put together again, a blank line between each two.
pub open spec fn rejoined(pieces: Seq<Seq<char>>) -> Seq<char>
    decreases pieces.len(),
{
    if pieces.len() == 0 {
        Seq::empty()
    } else if pieces.len() == 1 {
        pieces[0]
    } else {
        pieces[0] + seq!['\n', '\n'] + rejoined(pieces.drop_first())
    }
}

proof fn chunk_end_bounds(s: Seq<char>, i: int)
    requires
        0 <= i <= s.len(),
    ensures
        i <= chunk_end(s, i) <= s.len(),
        chunk_end(s, i) < s.len() ==> boundary_at(s, chunk_end(s, i)),
    decreases s.len() - i,
{
    if i < s.len() && !boundary_at(s, i) {
        chunk_end_bounds(s, i + 1);
    }
}

proof fn chunks_rejoin_from(s: Seq<char>, i: int)
    requires
        0 <= i <= s.len(),
    ensures
        chunks_from(s, i).len() >= 1,
        rejoined(chunks_from(s, i)) == s.subrange(i, s.len() as int),
    decreases s.len() - i,
{
    let e = chunk_end(s, i);
    chunk_end_bounds(s, i);
    if e + 2 <= s.len() {
        chunks_rejoin_from(s, e + 2);
        let rest = chunks_from(s, e + 2);
        let all = chunks_from(s, i);
        assert(all == seq![s.subrange(i, e)] + rest);
        assert(all.drop_first() =~= rest);
        assert(s.subrange(e, e + 2) =~= seq!['\n', '\n']);
        assert(rejoined(all) =~= s.subrange(i, s.len() as int));
    }
}

proof fn no_boundary_before_chunk_end(s: Seq<char>, i: int, k: int)
    requires
        0 <= i <= k < chunk_end(s, i),
    ensures
        !boundary_at(s, k),
    decreases s.len() - i,
{
    if i < s.len() && !boundary_at(s, i) && i < k {
        no_boundary_before_chunk_end(s, i + 1, k);
    }
}

/// Whether a blank line stands somewhere in `s`.
pub open spec fn holds_blank_line(s: Seq<char>) -> bool {
    exists|k: int| boundary_at(s, k)
}

proof fn chunks_hold_no_boundary_from(s: Seq<char>, i: int)
    requires
        0 <= i <= s.len(),
    ensures
        forall|n: int|
            0 <= n < chunks_from(s, i).len() ==> !holds_blank_line(#[trigger] chunks_from(s, i)[n]),
    decreases s.len() - i,
{
    let e = chunk_end(s, i);
    let all = chunks_from(s, i);
    chunk_end_bounds(s, i);
    let first = all[0];
    assert(!holds_blank_line(first)) by {
        if holds_blank_line(first) {
            let k = choose|k: int| boundary_at(first, k);
            assert(first[k] == s[i + k] && first[k + 1] == s[i + k + 1]);
            no_boundary_before_chunk_end(s, i, i + k);
        }
    }
    if e + 2 <= s.len() {
        chunks_hold_no_boundary_from(s, e + 2);
        let rest = chunks_from(s, e + 2);
        assert forall|n: int| 0 <= n < all.len() implies !holds_blank_line(#[trigger] all[n]) by {
            if n > 0 {
                assert(all[n] == rest[n - 1]);
            }
        }
    }
}

/// No chunk holds a blank line: every blank line of the document is a
/// boundary between two chunks or lies across one.
pub proof fn chunks_hold_no_blank_line(text: Seq<char>)
    ensures
        forall|n: int|
            0 <= n < chunks(text).len() ==> !holds_blank_line(#[trigger] chunks(text)[n]),
{
    chunks_hold_no_boundary_from(text, 0);
}

/// Chunks are contiguous and do not overlap: put together again with the
/// blank lines between them, they are the document.
pub proof fn chunks_rejoin_to_the_document(text: Seq<char>)
    ensures
        chunks(text).len() >= 1,
        rejoined(chunks(text)) == text,
{
    chunks_rejoin_from(text, 0);
    assert(text.subrange(0, text.len() as int) =~= text);
}

fn scan_chunk(s: &[char], i: usize) -> (j: usize)
    requires
        i <= s.len(),
    ensures
        j == chunk_end(s@, i as int),
        i <= j <= s.len(),
        j < s.len() ==> j + 2 <= s.len(),
{
    let mut j: usize = i;
    while j < s.len() && !(s.len() - j >= 2 && s[j] == '\n' && s[j + 1] == '\n')
        invariant
            i <= j <= s.len(),
            chunk_end(s@, i as int) == chunk_end(s@, j as int),
        decreases s.len() - j,
    {
        j += 1;
    }
    j
}

/// Splits a document into its chunks.
pub fn split_chunks(text: &str) -> (r: Vec<String>)
    ensures
        string_views(r@) == chunks(text@),
        r@.len() >= 1,
{
    let chars = chars_of(text);
    let s = chars.as_slice();
    let mut out: Vec<String> = Vec::new();
    let mut i: usize = 0;
    proof {
        assert(string_views(out@) =~= Seq::<Seq<char>>::empty());
    }
    loop
        invariant
            i <= s.len(),
            s@ == text@,
            chunks(text@) == string_views(out@) + chunks_from(s@, i as int),
        decreases s.len() - i,
    {
        let e = scan_chunk(s, i);
        let piece = string_of(vstd::slice::slice_subrange(s, i, e));
        proof {
            let before = string_views(out@);
            let after = string_views(out@.push(piece));
            assert(after =~= before.push(piece@));
            if e + 2 <= s.len() {
                assert(before + (seq![piece@] + chunks_from(s@, e + 2)) =~= after + chunks_from(
                    s@,
                    e + 2,
                ));
            } else {
                assert(s@.subrange(i as int, e as int) == s@.subrange(i as int, s.len() as int));
                assert(before + seq![piece@] =~= after);
            }
        }
        out.push(piece);
        if e < s.len() {
            i = e + 2;
        } else {
            return out;
        }
    }
}

/// The character of a decimal digit.
pub open spec fn digit(d: nat) -> char {
    (48 + d) as char
}

/// The decimal numeral of `n`, without leading zeros.
pub open spec fn decimal(n: nat) -> Seq<char>
    decreases n,
{
    if n < 10 {
        seq![digit(n)]
    } else {
        decimal(n / 10).push(digit(n % 10))
    }
}

/// The identifier of the chunk at position `index` of the document at
/// `path`: the path, a hyphen, and the position counted from zero.
pub open spec fn chunk_id_of(path: Seq<char>, index: nat) -> Seq<char> {
    path + seq!['-'] + decimal(index)
}

/// Whether `c` is the character of a decimal digit.
pub open spec fn is_digit(c: char) -> bool {
    '0' <= c <= '9'
}

proof fn decimal_is_digits(n: nat)
    ensures
        decimal(n).len() >= 1,
        forall|i: int| 0 <= i < decimal(n).len() ==> is_digit(#[trigger] decimal(n)[i]),
    decreases n,
{
    if n >= 10 {
        decimal_is_digits(n / 10);
    }
}

proof fn decimal_is_one_to_one(a: nat, b: nat)
    requires
        decimal(a) == decimal(b),
    ensures
        a == b,
    decreases a,
{
    decimal_is_digits(a / 10);
    decimal_is_digits(b / 10);
    if a < 10 && b < 10 {
        assert(decimal(a)[0] == digit(a) && decimal(b)[0] == digit(b));
        assert(digit(a) as int == 48 + a && digit(b) as int == 48 + b);
    } else if a >= 10 && b >= 10 {
        assert(decimal(a).last() == digit(a % 10) && decimal(b).last() == digit(b % 10));
        assert(digit(a % 10) as int == 48 + a % 10 && digit(b % 10) as int == 48 + b % 10);
        assert(decimal(a / 10) =~= decimal(a).drop_last());
        assert(decimal(b / 10) =~= decimal(b).drop_last());
        decimal_is_one_to_one(a / 10, b / 10);
    } else if a < 10 {
        assert(decimal(b).len() == decimal(b / 10).len() + 1);
    } else {
        assert(decimal(a).len() == decimal(a / 10).len() + 1);
    }
}

/// Identifiers never collide: two chunks have the same identifier only if
/// they are the same position of the same path.
pub proof fn chunk_ids_are_one_to_one(p: Seq<char>, i: nat, q: Seq<char>, j: nat)
    requires
        chunk_id_of(p, i) == chunk_id_of(q, j),
    ensures
        p == q,
        i == j,
{
    let a = decimal(i);
    let b = decimal(j);
    let x = chunk_id_of(p, i);
    let y = chunk_id_of(q, j);
    decimal_is_digits(i);
    decimal_is_digits(j);
    assert(x.len() == p.len() + 1 + a.len());
    assert(y.len() == q.len() + 1 + b.len());
    if a.len() < b.len() {
        let k = b.len() - a.len() - 1;
        assert(x[p.len() as int] == '-');
        assert(y[p.len() as int] == b[k]);
        assert(is_digit(b[k]));
    } else if b.len() < a.len() {
        let k = a.len() - b.len() - 1;
        assert(y[q.len() as int] == '-');
        assert(x[q.len() as int] == a[k]);
        assert(is_digit(a[k]));
    }
    assert(p.len() == q.len());
    assert(p =~= q) by {
        assert forall|k: int| 0 <= k < p.len() implies p[k] == q[k] by {
            assert(x[k] == p[k]);
            assert(y[k] == q[k]);
        }
    }
    assert(a =~= b) by {
        assert forall|k: int| 0 <= k < a.len() implies a[k] == b[k] by {
            assert(x[p.len() + 1 + k] == a[k]);
            assert(y[q.len() + 1 + k] == b[k]);
        }
    }
    decimal_is_one_to_one(i, j);
}

fn push_decimal(out: &mut Vec<char>, n: usize)
    ensures
        final(out)@ == old(out)@ + decimal(n as nat),
    decreases n,
{
    if n >= 10 {
        push_decimal(out, n / 10);
    }
    let d: u8 = (n % 10) as u8;
    out.push((48u8 + d) as char);
    proof {
        assert(out@ =~= old(out)@ + decimal(n as nat));
    }
}

/// Names a chunk. The name depends on the path and the position alone.
pub fn chunk_id(path: &str, index: usize) -> (id: String)
    ensures
        id@ == chunk_id_of(path@, index as nat),
{
    let mut out = chars_of(path);
    out.push('-');
    push_decimal(&mut out, index);
    proof {
        assert(out@ =~= chunk_id_of(path@, index as nat));
    }
    string_of(out.as_slice())
}

} // verus!
