//! The statements of a migration script.

use vstd::prelude::*;
use crate::text::{chars_of, string_from_chars, trim, trimmed};

verus! {

/// The pieces of `s` between `;` separators, as far as read: the finished
/// pieces, and the piece still being read.
pub open spec fn split_pieces(s: Seq<char>) -> (Seq<Seq<char>>, Seq<char>)
    decreases s.len(),
{
    if s.len() == 0 {
        (Seq::empty(), Seq::empty())
    } else {
        let (done, current) = split_pieces(s.drop_last());
        if s.last() == ';' {
            (done.push(current), Seq::empty())
        } else {
            (done, current.push(s.last()))
        }
    }
}

/// The trimmed pieces of `pieces` that are not empty, in order.
pub open spec fn nonempty_trimmed(pieces: Seq<Seq<char>>) -> Seq<Seq<char>>
    decreases pieces.len(),
{
    if pieces.len() == 0 {
        Seq::empty()
    } else {
        let before = nonempty_trimmed(pieces.drop_last());
        let t = trimmed(pieces.last());
        if t.len() == 0 { before } else { before.push(t) }
    }
}

/// The statements of a script: its `;`-separated pieces, trimmed, without
/// the empty ones.
pub open spec fn script_statements(s: Seq<char>) -> Seq<Seq<char>> {
    let (done, rest) = split_pieces(s);
    nonempty_trimmed(done.push(rest))
}

/// Splits a migration script into the statements to run, in order.
pub fn sql_statements(sql: &str) -> (r: Vec<String>)
    ensures
        r@.map_values(|t: String| t@) == script_statements(sql@),
{
    let v = chars_of(sql);
    let mut out: Vec<String> = Vec::new();
    let mut current: Vec<char> = Vec::new();
    let mut i: usize = 0;
    while i < v.len()
        invariant
            i <= v@.len(),
            v@ == sql@,
            split_pieces(v@.subrange(0, i as int)).1 == current@,
            out@.map_values(|t: String| t@) == nonempty_trimmed(split_pieces(v@.subrange(0, i as int)).0),
        decreases v.len() - i,
    {
        assert(v@.subrange(0, i + 1).drop_last() =~= v@.subrange(0, i as int));
        let c = v[i];
        if c == ';' {
            let piece = string_from_chars(&current);
            let t = trim(piece.as_str());
            if t.as_str().unicode_len() > 0 {
                out.push(t);
            }
            proof {
                let done = split_pieces(v@.subrange(0, i as int)).0;
                assert(done.push(current@).drop_last() =~= done);
            }
            assert(out@.map_values(|t: String| t@) =~= nonempty_trimmed(split_pieces(v@.subrange(0, i + 1)).0));
            current = Vec::new();
        } else {
            current.push(c);
        }
        i = i + 1;
    }
    let piece = string_from_chars(&current);
    let t = trim(piece.as_str());
    if t.as_str().unicode_len() > 0 {
        out.push(t);
    }
    proof {
        assert(v@.subrange(0, i as int) =~= sql@);
        let done = split_pieces(sql@).0;
        assert(done.push(current@).drop_last() =~= done);
    }
    assert(out@.map_values(|t: String| t@) =~= script_statements(sql@));
    out
}

} // verus!
