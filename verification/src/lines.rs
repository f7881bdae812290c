//! Splitting a bulk-loaded file into lines and deduplicating them.
//!
//! A loaded file is split on each CRLF sequence, left to right; the
//! resulting lines are deduplicated within that one load, keeping the
//! first occurrence of each line.

use vstd::prelude::*;
use vstd::string::*;

use crate::strutil::str_eq;
use crate::strutil::substring_string;

verus! {

/// Splits `s` on CRLF, with `cur` the piece built up so far.
pub open spec fn split_crlf_from(s: Seq<char>, cur: Seq<char>) -> Seq<Seq<char>>
    decreases s.len(),
{
    if s.len() >= 2 && s[0] == '\r' && s[1] == '\n' {
        seq![cur] + split_crlf_from(s.skip(2), Seq::empty())
    } else if s.len() == 0 {
        seq![cur]
    } else {
        split_crlf_from(s.skip(1), cur.push(s[0]))
    }
}

/// The pieces of `s` between its CRLF sequences, in order. Empty pieces
/// are kept, so a trailing CRLF yields a final empty piece.
pub open spec fn split_crlf(s: Seq<char>) -> Seq<Seq<char>> {
    split_crlf_from(s, Seq::empty())
}

/// Splits a loaded file's content on CRLF.
pub fn split_crlf_lines(s: &str) -> (r: Vec<String>)
    ensures
        r.deep_view() == split_crlf(s@),
{
    let len = s.unicode_len();
    let mut pieces: Vec<String> = Vec::new();
    let mut start: usize = 0;
    let mut i: usize = 0;
    proof {
        assert(s@.skip(0) =~= s@);
        assert(s@.subrange(0, 0) =~= Seq::<char>::empty());
        assert(pieces.deep_view() + split_crlf_from(s@, Seq::empty()) =~= split_crlf(s@));
    }
    while i < len
        invariant
            len == s@.len(),
            start <= i <= len,
            split_crlf(s@) == pieces.deep_view() + split_crlf_from(
                s@.skip(i as int),
                s@.subrange(start as int, i as int),
            ),
        decreases len - i,
    {
        let ghost t = s@.skip(i as int);
        let ghost cur = s@.subrange(start as int, i as int);
        if i + 1 < len && s.get_char(i) == '\r' && s.get_char(i + 1) == '\n' {
            let ghost old_pieces = pieces.deep_view();
            let piece = substring_string(s, start, i);
            pieces.push(piece);
            proof {
                assert(t[0] == '\r' && t[1] == '\n');
                assert(t.skip(2) =~= s@.skip(i + 2));
                assert(Seq::<char>::empty() =~= s@.subrange(i + 2, i + 2));
                assert(pieces.deep_view() =~= old_pieces.push(cur));
                assert(old_pieces.push(cur) + split_crlf_from(s@.skip(i + 2), s@.subrange(i + 2, i + 2))
                    =~= old_pieces + split_crlf_from(t, cur));
            }
            start = i + 2;
            i = i + 2;
        } else {
            proof {
                assert(t.len() >= 1);
                assert(!(t.len() >= 2 && t[0] == '\r' && t[1] == '\n'));
                assert(t.skip(1) =~= s@.skip(i + 1));
                assert(cur.push(t[0]) =~= s@.subrange(start as int, i + 1));
            }
            i = i + 1;
        }
    }
    let ghost old_pieces = pieces.deep_view();
    let last_piece = substring_string(s, start, len);
    pieces.push(last_piece);
    proof {
        assert(s@.skip(i as int) =~= Seq::<char>::empty());
        assert(pieces.deep_view() =~= old_pieces.push(s@.subrange(start as int, i as int)));
        assert(old_pieces.push(s@.subrange(start as int, i as int))
            =~= old_pieces + seq![s@.subrange(start as int, i as int)]);
    }
    pieces
}

/// The lines of `s` with every repeat of an earlier line removed: each
/// distinct line once, at the position of its first occurrence.
pub open spec fn dedup_spec(s: Seq<Seq<char>>) -> Seq<Seq<char>>
    decreases s.len(),
{
    if s.len() == 0 {
        Seq::empty()
    } else {
        let d = dedup_spec(s.drop_last());
        if d.contains(s.last()) {
            d
        } else {
            d.push(s.last())
        }
    }
}

/// True exactly when one of the strings in `v` equals `x`.
pub fn vec_contains_str(v: &Vec<String>, x: &str) -> (r: bool)
    ensures
        r == v.deep_view().contains(x@),
{
    let mut i: usize = 0;
    while i < v.len()
        invariant
            i <= v.len(),
            forall|j: int| 0 <= j < i ==> v.deep_view()[j] != x@,
        decreases v.len() - i,
    {
        if str_eq(v[i].as_str(), x) {
            proof {
                assert(v.deep_view()[i as int] == x@);
            }
            return true;
        }
        i += 1;
    }
    false
}

/// Removes every repeat of an earlier line, keeping first occurrences.
pub fn dedup_lines(v: &Vec<String>) -> (r: Vec<String>)
    ensures
        r.deep_view() == dedup_spec(v.deep_view()),
{
    let mut out: Vec<String> = Vec::new();
    let mut i: usize = 0;
    proof {
        assert(v.deep_view().take(0) =~= Seq::<Seq<char>>::empty());
    }
    while i < v.len()
        invariant
            i <= v.len(),
            out.deep_view() == dedup_spec(v.deep_view().take(i as int)),
        decreases v.len() - i,
    {
        let ghost pre = v.deep_view().take(i as int);
        let ghost old_out = out.deep_view();
        let seen = vec_contains_str(&out, v[i].as_str());
        if !seen {
            out.push(v[i].clone());
        }
        proof {
            let next = v.deep_view().take(i + 1);
            assert(next.drop_last() =~= pre);
            assert(next.last() == v.deep_view()[i as int]);
            if !seen {
                assert(out.deep_view() =~= old_out.push(v.deep_view()[i as int]));
            }
        }
        i += 1;
    }
    proof {
        assert(v.deep_view().take(v.len() as int) =~= v.deep_view());
    }
    out
}

/// Law: a bulk load never yields the same line twice; after
/// deduplication the entries are pairwise distinct.
pub proof fn lemma_dedup_distinct(s: Seq<Seq<char>>)
    ensures
        forall|i: int, j: int|
            0 <= i < j < dedup_spec(s).len() ==> dedup_spec(s)[i] != dedup_spec(s)[j],
    decreases s.len(),
{
    if s.len() > 0 {
        let d = dedup_spec(s.drop_last());
        lemma_dedup_distinct(s.drop_last());
        if !d.contains(s.last()) {
            assert(forall|i: int| 0 <= i < d.len() ==> d[i] != s.last());
            assert(forall|i: int, j: int|
                0 <= i < j < dedup_spec(s).len() ==> dedup_spec(s)[i] != dedup_spec(s)[j]) by {
                assert(forall|i: int| 0 <= i < d.len() ==> dedup_spec(s)[i] == d[i]);
            }
        }
    }
}

/// Law: deduplication keeps exactly the lines of the load: a line is in
/// the result just when it is in the input.
pub proof fn lemma_dedup_same_lines(s: Seq<Seq<char>>)
    ensures
        forall|x: Seq<char>| dedup_spec(s).contains(x) <==> s.contains(x),
    decreases s.len(),
{
    if s.len() > 0 {
        let dl = s.drop_last();
        let d = dedup_spec(dl);
        lemma_dedup_same_lines(dl);
        assert forall|x: Seq<char>| dedup_spec(s).contains(x) <==> s.contains(x) by {
            if dedup_spec(s).contains(x) {
                let k = choose|k: int|
                    0 <= k < dedup_spec(s).len() && dedup_spec(s)[k] == x;
                if k < d.len() {
                    assert(d[k] == x);
                    assert(d.contains(x));
                    assert(dl.contains(x));
                    let m = choose|m: int| 0 <= m < dl.len() && dl[m] == x;
                    assert(s[m] == x);
                    assert(s.contains(x));
                } else {
                    assert(dedup_spec(s)[k] == s.last());
                    assert(s[s.len() - 1] == x);
                    assert(s.contains(x));
                }
            }
            if s.contains(x) {
                let k = choose|k: int| 0 <= k < s.len() && s[k] == x;
                if k < s.len() - 1 {
                    assert(dl[k] == x);
                    assert(dl.contains(x));
                    assert(d.contains(x));
                    let m = choose|m: int| 0 <= m < d.len() && d[m] == x;
                    assert(dedup_spec(s)[m] == x);
                    assert(dedup_spec(s).contains(x));
                } else {
                    assert(s.last() == x);
                    if d.contains(s.last()) {
                        let m = choose|m: int| 0 <= m < d.len() && d[m] == s.last();
                        assert(dedup_spec(s)[m] == x);
                        assert(dedup_spec(s).contains(x));
                    } else {
                        assert(dedup_spec(s)[d.len() as int] == x);
                        assert(dedup_spec(s).contains(x));
                    }
                }
            }
        }
    }
}

} // verus!
