//! Temporal ordering of a frame sequence.
//!
//! Frames are named by the fixed zero-padded extraction pattern, so
//! lexicographic name order is temporal order; directory enumeration returns
//! them in arbitrary order, and the sequence handed to the deduplicator must
//! be sorted before any adjacent pair is compared.

use vstd::prelude::*;
use vstd::seq_lib::group_to_multiset_ensures;
use vstd::seq_lib::lemma_multiset_commutative;
use vstd::string::StrSliceExecFns;

verus! {

/// Lexicographic order on character sequences, by code point.
pub open spec fn lex_le(a: Seq<char>, b: Seq<char>) -> bool
    decreases a.len(),
{
    if a.len() == 0 {
        true
    } else if b.len() == 0 {
        false
    } else if (a[0] as u32) == (b[0] as u32) {
        lex_le(a.drop_first(), b.drop_first())
    } else {
        (a[0] as u32) < (b[0] as u32)
    }
}

/// Any two sequences are comparable.
pub proof fn lemma_lex_le_total(a: Seq<char>, b: Seq<char>)
    ensures
        lex_le(a, b) || lex_le(b, a),
    decreases a.len(),
{
    if a.len() > 0 && b.len() > 0 && (a[0] as u32) == (b[0] as u32) {
        lemma_lex_le_total(a.drop_first(), b.drop_first());
    }
}

/// The order is transitive.
pub proof fn lemma_lex_le_trans(a: Seq<char>, b: Seq<char>, c: Seq<char>)
    requires
        lex_le(a, b),
        lex_le(b, c),
    ensures
        lex_le(a, c),
    decreases a.len(),
{
    if a.len() > 0 {
        if (a[0] as u32) == (b[0] as u32) && (b[0] as u32) == (c[0] as u32) {
            lemma_lex_le_trans(a.drop_first(), b.drop_first(), c.drop_first());
        }
    }
}

/// Compare two paths in lexicographic order.
pub fn str_lex_le(a: &str, b: &str) -> (r: bool)
    ensures
        r == lex_le(a@, b@),
{
    let alen = a.unicode_len();
    let blen = b.unicode_len();
    proof {
        assert(a@.skip(0) =~= a@);
        assert(b@.skip(0) =~= b@);
    }
    let mut i: usize = 0;
    loop
        invariant
            alen == a@.len(),
            blen == b@.len(),
            i <= alen,
            i <= blen,
            lex_le(a@, b@) == lex_le(a@.skip(i as int), b@.skip(i as int)),
        decreases alen - i,
    {
        if i == alen {
            proof {
                assert(a@.skip(i as int) =~= Seq::<char>::empty());
            }
            return true;
        }
        if i == blen {
            proof {
                assert(b@.skip(i as int) =~= Seq::<char>::empty());
                assert(a@.skip(i as int).len() > 0);
            }
            return false;
        }
        let ca = a.get_char(i);
        let cb = b.get_char(i);
        proof {
            assert(a@.skip(i as int)[0] == a@[i as int]);
            assert(b@.skip(i as int)[0] == b@[i as int]);
            assert(a@.skip(i as int).drop_first() =~= a@.skip(i as int + 1));
            assert(b@.skip(i as int).drop_first() =~= b@.skip(i as int + 1));
        }
        if (ca as u32) != (cb as u32) {
            return (ca as u32) < (cb as u32);
        }
        i += 1;
    }
}

/// Sort a frame sequence into temporal order: the result holds exactly the
/// given paths, lexicographically ordered. The sort is stable, though equal
/// paths carry no distinguishing state.
pub fn sort_frame_sequence(frames: &Vec<String>) -> (r: Vec<String>)
    ensures
        r.deep_view().to_multiset() == frames.deep_view().to_multiset(),
        r.deep_view().len() == frames.deep_view().len(),
        forall|i: int, j: int|
            0 <= i < j < r.deep_view().len() ==> lex_le(r.deep_view()[i], r.deep_view()[j]),
{
    let n = frames.len();
    let mut r: Vec<String> = Vec::new();
    proof {
        assert(frames.deep_view().take(0) =~= Seq::<Seq<char>>::empty());
        assert(r.deep_view() =~= Seq::<Seq<char>>::empty());
    }
    let mut k: usize = 0;
    while k < n
        invariant
            n == frames@.len(),
            k <= n,
            r@.len() == k,
            r.deep_view().to_multiset() == frames.deep_view().take(k as int).to_multiset(),
            forall|i: int, j: int|
                0 <= i < j < r.deep_view().len() ==> lex_le(r.deep_view()[i], r.deep_view()[j]),
        decreases n - k,
    {
        let x = frames[k].clone();
        let ghost xv = x@;
        let mut pos: usize = 0;
        while pos < r.len() && str_lex_le(r[pos].as_str(), x.as_str())
            invariant
                pos <= r@.len(),
                xv == x@,
                forall|j: int| 0 <= j < pos as int ==> lex_le(r.deep_view()[j], xv),
            decreases r@.len() - pos,
        {
            pos += 1;
        }
        let ghost rold = r.deep_view();
        let ghost gpos = pos as int;
        proof {
            if gpos < rold.len() {
                lemma_lex_le_total(rold[gpos], xv);
                assert(lex_le(xv, rold[gpos]));
            }
        }
        r.insert(pos, x);
        proof {
            assert(r.deep_view() =~= rold.insert(gpos, xv));
            let rnew = r.deep_view();
            assert forall|i: int, j: int| 0 <= i < j < rnew.len() implies lex_le(
                rnew[i],
                rnew[j],
            ) by {
                if j < gpos {
                    assert(rnew[i] == rold[i] && rnew[j] == rold[j]);
                } else if i < gpos && j == gpos {
                    assert(rnew[i] == rold[i] && rnew[j] == xv);
                } else if i < gpos && j > gpos {
                    assert(rnew[i] == rold[i] && rnew[j] == rold[j - 1]);
                } else if i == gpos {
                    assert(rnew[i] == xv && rnew[j] == rold[j - 1]);
                    assert(lex_le(xv, rold[gpos]));
                    if j - 1 > gpos {
                        lemma_lex_le_trans(xv, rold[gpos], rold[j - 1]);
                    }
                } else {
                    assert(rnew[i] == rold[i - 1] && rnew[j] == rold[j - 1]);
                }
            }
            // the inserted sequence holds the old paths plus the new one
            broadcast use group_to_multiset_ensures;

            assert(rold.insert(gpos, xv) =~= rold.take(gpos).push(xv) + rold.skip(gpos));
            lemma_multiset_commutative(rold.take(gpos).push(xv), rold.skip(gpos));
            lemma_multiset_commutative(rold.take(gpos), rold.skip(gpos));
            assert(rold.take(gpos) + rold.skip(gpos) =~= rold);
            assert(rnew.to_multiset() =~= rold.to_multiset().insert(xv));
            assert(frames.deep_view().take(k as int + 1) =~= frames.deep_view().take(
                k as int,
            ).push(frames.deep_view()[k as int]));
            assert(xv == frames.deep_view()[k as int]);
        }
        k += 1;
    }
    proof {
        assert(frames.deep_view().take(n as int) =~= frames.deep_view());
        broadcast use group_to_multiset_ensures;

        assert(r.deep_view().len() == r.deep_view().to_multiset().len());
        assert(frames.deep_view().len() == frames.deep_view().to_multiset().len());
    }
    r
}

} // verus!
