//! Byte-level text utilities: finding the first occurrence of a contiguous
//! byte pattern inside a larger text. The probe output and the diagnostic
//! stream of the external media tool are searched with these.

use vstd::prelude::*;

verus! {

/// `needle` occurs in `hay` as a contiguous run starting at index `i`.
pub open spec fn matches_at(hay: Seq<u8>, needle: Seq<u8>, i: int) -> bool {
    0 <= i && i + needle.len() <= hay.len() && hay.subrange(i, i + needle.len()) == needle
}

/// Index of the first occurrence of `needle` in `hay` at or after `from`,
/// or `-1` when there is none.
pub open spec fn spec_find(hay: Seq<u8>, needle: Seq<u8>, from: int) -> int
    decreases hay.len() - from + 1,
{
    if from < 0 || from + needle.len() > hay.len() {
        -1
    } else if matches_at(hay, needle, from) {
        from
    } else {
        spec_find(hay, needle, from + 1)
    }
}

/// `needle` occurs somewhere in `hay`.
pub open spec fn contains_seq(hay: Seq<u8>, needle: Seq<u8>) -> bool {
    spec_find(hay, needle, 0) != -1
}

/// The `-1`/index split of `spec_find` agrees with the existential reading:
/// a search from `from` fails exactly when no position at or after `from`
/// matches, and otherwise lands on the first matching position.
pub proof fn lemma_find_characterizes(hay: Seq<u8>, needle: Seq<u8>, from: int)
    requires
        from >= 0,
    ensures
        spec_find(hay, needle, from) == -1 ==> forall|j: int|
            from <= j ==> !matches_at(hay, needle, j),
        spec_find(hay, needle, from) != -1 ==> {
            let r = spec_find(hay, needle, from);
            &&& from <= r
            &&& matches_at(hay, needle, r)
            &&& forall|j: int| from <= j < r ==> !matches_at(hay, needle, j)
        },
    decreases hay.len() - from + 1,
{
    if from + needle.len() > hay.len() {
        assert forall|j: int| from <= j implies !matches_at(hay, needle, j) by {}
    } else if matches_at(hay, needle, from) {
    } else {
        lemma_find_characterizes(hay, needle, from + 1);
    }
}

/// `needle` occurs in `hay` exactly when some position matches it.
pub proof fn lemma_contains_iff_exists(hay: Seq<u8>, needle: Seq<u8>)
    ensures
        contains_seq(hay, needle) <==> exists|i: int| matches_at(hay, needle, i),
{
    lemma_find_characterizes(hay, needle, 0);
    if contains_seq(hay, needle) {
        assert(matches_at(hay, needle, spec_find(hay, needle, 0)));
    }
    if exists|i: int| matches_at(hay, needle, i) {
        let i = choose|i: int| matches_at(hay, needle, i);
        assert(!(spec_find(hay, needle, 0) == -1)) by {
            if spec_find(hay, needle, 0) == -1 {
                assert(!matches_at(hay, needle, i));
            }
        }
    }
}

/// Whether `needle` matches `hay` at position `at`.
fn matches_here(hay: &[u8], needle: &[u8], at: usize) -> (r: bool)
    requires
        at + needle@.len() <= hay@.len(),
    ensures
        r == matches_at(hay@, needle@, at as int),
{
    let n = needle.len();
    let hlen = hay.len();
    let mut j: usize = 0;
    while j < n
        invariant
            n == needle@.len(),
            hlen == hay@.len(),
            at + n <= hlen,
            j <= n,
            forall|k: int| 0 <= k < j ==> hay@[at + k] == needle@[k],
        decreases n - j,
    {
        if hay[at + j] != needle[j] {
            proof {
                assert(hay@.subrange(at as int, at + needle@.len())[j as int] == hay@[at + j]);
            }
            return false;
        }
        j += 1;
    }
    proof {
        assert(hay@.subrange(at as int, at + needle@.len()) =~= needle@);
    }
    true
}

/// First occurrence of `needle` in `hay`, if any.
pub fn find_sub(hay: &[u8], needle: &[u8]) -> (r: Option<usize>)
    ensures
        match r {
            Some(i) => spec_find(hay@, needle@, 0) == i as int,
            None => spec_find(hay@, needle@, 0) == -1,
        },
{
    if needle.len() > hay.len() {
        return None;
    }
    let bound = hay.len() - needle.len();
    let mut i: usize = 0;
    loop
        invariant
            needle@.len() <= hay@.len(),
            bound == hay@.len() - needle@.len(),
            i <= bound,
            spec_find(hay@, needle@, 0) == spec_find(hay@, needle@, i as int),
        decreases bound + 1 - i,
    {
        if matches_here(hay, needle, i) {
            return Some(i);
        }
        if i == bound {
            proof {
                assert(spec_find(hay@, needle@, i + 1) == -1);
            }
            return None;
        }
        i += 1;
    }
}

/// Whether `needle` occurs anywhere in `hay`.
pub fn contains_sub(hay: &[u8], needle: &[u8]) -> (r: bool)
    ensures
        r == contains_seq(hay@, needle@),
{
    match find_sub(hay, needle) {
        Some(_) => true,
        None => false,
    }
}

} // verus!
