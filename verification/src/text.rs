//! Building blocks for text: comparing two strings and joining many.

use vstd::prelude::*;
use vstd::utf8::*;

verus! {

/// `String::push` of the standard library, taken on trust: the string after
/// the call is the string before it with `ch` as one more character at its
/// end.
pub assume_specification[ String::push ](s: &mut String, ch: char)
    ensures
        final(s)@ == old(s)@.push(ch),
;

/// Two character sequences with the same UTF-8 encoding are the same.
pub proof fn lemma_encoding_is_injective(a: Seq<char>, b: Seq<char>)
    requires
        encode_utf8(a) == encode_utf8(b),
    ensures
        a == b,
{
    encode_utf8_decode_utf8(a);
    encode_utf8_decode_utf8(b);
}

/// Whether `a` and `b` hold exactly the same characters.
pub fn same_text(a: &str, b: &str) -> (same: bool)
    ensures
        same == (a@ == b@),
{
    let x = a.as_bytes();
    let y = b.as_bytes();
    if x.len() != y.len() {
        return false;
    }
    let mut i: usize = 0;
    while i < x.len()
        invariant
            x@.len() == y@.len(),
            i <= x@.len(),
            x@ == encode_utf8(a@),
            y@ == encode_utf8(b@),
            forall|k: int| 0 <= k < i ==> x@[k] == y@[k],
        decreases x@.len() - i,
    {
        if x[i] != y[i] {
            return false;
        }
        i += 1;
    }
    proof {
        assert(x@ =~= y@);
        lemma_encoding_is_injective(a@, b@);
    }
    true
}

/// The texts of `parts` written one after another with `sep` between
/// neighbours: nothing before the first and nothing after the last.
pub open spec fn joined(parts: Seq<Seq<char>>, sep: Seq<char>) -> Seq<char>
    decreases parts.len(),
{
    if parts.len() == 0 {
        Seq::empty()
    } else if parts.len() == 1 {
        parts[0]
    } else {
        joined(parts.drop_last(), sep) + sep + parts.last()
    }
}

/// A joined text of two or more parts is the first part, the separator and the
/// joined text of the others.
pub proof fn lemma_joined_from_front(parts: Seq<Seq<char>>, sep: Seq<char>)
    requires
        parts.len() >= 2,
    ensures
        joined(parts, sep) == parts[0] + sep + joined(parts.drop_first(), sep),
    decreases parts.len(),
{
    let front = parts.drop_last();
    let back = parts.drop_first();
    if parts.len() == 2 {
        assert(joined(front, sep) == parts[0]);
    } else {
        lemma_joined_from_front(front, sep);
        assert(front.drop_first() =~= back.drop_last());
    }
}

/// The views of a sequence of strings, in order.
pub open spec fn texts(strings: Seq<String>) -> Seq<Seq<char>> {
    strings.map_values(|s: String| s@)
}

/// Joins `parts[from..]` with `sep` between neighbours.
pub fn join_from(parts: &Vec<String>, from: usize, sep: &str) -> (out: String)
    requires
        from <= parts@.len(),
    ensures
        out@ == joined(texts(parts@).skip(from as int), sep@),
{
    let mut out = String::new();
    let mut i: usize = from;
    while i < parts.len()
        invariant
            from <= i <= parts@.len(),
            out@ == joined(texts(parts@).subrange(from as int, i as int), sep@),
        decreases parts@.len() - i,
    {
        if i > from {
            out.append(sep);
        }
        out.append(parts[i].as_str());
        proof {
            let before = texts(parts@).subrange(from as int, i as int);
            let after = texts(parts@).subrange(from as int, i + 1);
            assert(after.drop_last() =~= before);
        }
        i += 1;
    }
    out
}

} // verus!
