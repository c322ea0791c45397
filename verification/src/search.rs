//! Leftmost substring search over byte sequences.
//!
//! The delimiter scanner and the excerpt extractor both need first-match
//! (leftmost) substring semantics; `first_match_from` is the mathematical
//! model and `find_first` the verified scan.

use vstd::prelude::*;

verus! {

/// True when `needle` occurs in `hay` starting exactly at index `i`.
pub open spec fn matches_at(hay: Seq<u8>, needle: Seq<u8>, i: int) -> bool {
    &&& 0 <= i
    &&& i + needle.len() <= hay.len()
    &&& hay.subrange(i, i + needle.len()) == needle
}

/// Index of the leftmost occurrence of `needle` in `hay` at or after `from`,
/// or -1 when there is none.
pub open spec fn first_match_from(hay: Seq<u8>, needle: Seq<u8>, from: int) -> int
    decreases hay.len() - from + 1,
{
    if from < 0 || from + needle.len() > hay.len() {
        -1
    } else if hay.subrange(from, from + needle.len()) == needle {
        from
    } else {
        first_match_from(hay, needle, from + 1)
    }
}

/// What `first_match_from` returns is the leftmost match at or after `from`,
/// and -1 means there is none at all.
pub proof fn lemma_first_match_from_props(hay: Seq<u8>, needle: Seq<u8>, from: int)
    requires
        0 <= from,
    ensures
        first_match_from(hay, needle, from) == -1 || first_match_from(hay, needle, from) >= from,
        first_match_from(hay, needle, from) == -1 ==> forall|i: int|
            from <= i ==> !matches_at(hay, needle, i),
        first_match_from(hay, needle, from) >= 0 ==> {
            let m = first_match_from(hay, needle, from);
            &&& from <= m
            &&& matches_at(hay, needle, m)
            &&& forall|i: int| from <= i < m ==> !matches_at(hay, needle, i)
        },
    decreases hay.len() - from + 1,
{
    if from + needle.len() > hay.len() {
        assert forall|i: int| from <= i implies !matches_at(hay, needle, i) by {
            assert(i + needle.len() > hay.len());
        }
    } else if hay.subrange(from, from + needle.len()) == needle {
    } else {
        lemma_first_match_from_props(hay, needle, from + 1);
        assert(!matches_at(hay, needle, from));
    }
}

/// A match at `k` with no match before it pins `first_match_from` to `k`.
pub proof fn lemma_first_match_is(hay: Seq<u8>, needle: Seq<u8>, from: int, k: int)
    requires
        0 <= from <= k,
        matches_at(hay, needle, k),
        forall|i: int| from <= i < k ==> !matches_at(hay, needle, i),
    ensures
        first_match_from(hay, needle, from) == k,
{
    lemma_first_match_from_props(hay, needle, from);
    let m = first_match_from(hay, needle, from);
    if m == -1 {
        assert(!matches_at(hay, needle, k));
    } else {
        if m < k {
            assert(!matches_at(hay, needle, m));
        }
        if m > k {
            assert(!matches_at(hay, needle, k));
        }
    }
}

/// Shifting past a prefix keeps a match in the tail at the shifted index.
pub proof fn lemma_matches_at_shift(prefix: Seq<u8>, tail: Seq<u8>, needle: Seq<u8>, i: int)
    requires
        0 <= i,
        i + needle.len() <= tail.len(),
    ensures
        matches_at(prefix + tail, needle, prefix.len() + i) == matches_at(tail, needle, i),
{
    let n = needle.len() as int;
    assert((prefix + tail).subrange(prefix.len() + i, prefix.len() + i + n) =~= tail.subrange(
        i,
        i + n,
    ));
}

/// A match whose window lies inside `s` is unaffected by appending `ext`.
pub proof fn lemma_matches_at_prefix(s: Seq<u8>, ext: Seq<u8>, needle: Seq<u8>, i: int)
    requires
        0 <= i,
        i + needle.len() <= s.len(),
    ensures
        matches_at(s + ext, needle, i) == matches_at(s, needle, i),
{
    let n = needle.len() as int;
    assert((s + ext).subrange(i, i + n) =~= s.subrange(i, i + n));
}

/// True when `needle` occurs in `hay` at index `at`.
fn matches_here(hay: &[u8], needle: &[u8], at: usize) -> (r: bool)
    requires
        at + needle@.len() <= hay@.len(),
    ensures
        r == matches_at(hay@, needle@, at as int),
{
    let hay_len: usize = hay.len();
    let mut j: usize = 0;
    while j < needle.len()
        invariant
            j <= needle@.len(),
            at + needle@.len() <= hay@.len(),
            hay@.len() <= usize::MAX,
            forall|k: int| 0 <= k < j ==> hay@[at + k] == needle@[k],
        decreases needle@.len() - j,
    {
        if hay[at + j] != needle[j] {
            assert(hay@.subrange(at as int, at + needle@.len())[j as int] != needle@[j as int]);
            return false;
        }
        j += 1;
    }
    assert(hay@.subrange(at as int, at + needle@.len()) =~= needle@);
    true
}

/// Scans `hay` from index `from` for the leftmost occurrence of `needle`.
pub fn find_first(hay: &[u8], needle: &[u8], from: usize) -> (r: Option<usize>)
    ensures
        ({
            let m = first_match_from(hay@, needle@, from as int);
            &&& (r is Some <==> m >= 0)
            &&& (r matches Some(p) ==> p == m && from <= p && matches_at(hay@, needle@, p as int))
            &&& (r is None ==> forall|i: int| from <= i ==> !matches_at(hay@, needle@, i))
        }),
{
    proof {
        lemma_first_match_from_props(hay@, needle@, from as int);
    }
    if hay.len() < needle.len() || from > hay.len() - needle.len() {
        return None;
    }
    if needle.len() == 0 {
        proof {
            assert(hay@.subrange(from as int, from as int) =~= needle@);
            lemma_first_match_is(hay@, needle@, from as int, from as int);
        }
        return Some(from);
    }
    let last = hay.len() - needle.len();
    let mut i: usize = from;
    while i <= last
        invariant
            from <= i <= last + 1,
            1 <= needle@.len() <= hay@.len(),
            hay@.len() <= usize::MAX,
            last == hay@.len() - needle@.len(),
            forall|j: int| from <= j < i ==> !matches_at(hay@, needle@, j),
        decreases last + 1 - i,
    {
        if matches_here(hay, needle, i) {
            proof {
                lemma_first_match_is(hay@, needle@, from as int, i as int);
            }
            return Some(i);
        }
        i += 1;
    }
    proof {
        assert forall|j: int| from <= j implies !matches_at(hay@, needle@, j) by {
            if j > last {
                assert(j + needle@.len() > hay@.len());
            }
        }
        lemma_first_match_from_props(hay@, needle@, from as int);
        if first_match_from(hay@, needle@, from as int) >= 0 {
            assert(matches_at(hay@, needle@, first_match_from(hay@, needle@, from as int)));
        }
    }
    None
}

/// True when `a` and `b` hold the same bytes.
pub fn bytes_eq(a: &[u8], b: &[u8]) -> (r: bool)
    ensures
        r <==> a@ == b@,
{
    if a.len() != b.len() {
        assert(a@.len() != b@.len());
        return false;
    }
    let mut i: usize = 0;
    while i < a.len()
        invariant
            i <= a@.len(),
            a@.len() == b@.len(),
            forall|j: int| 0 <= j < i ==> a@[j] == b@[j],
        decreases a@.len() - i,
    {
        if a[i] != b[i] {
            assert(a@[i as int] != b@[i as int]);
            return false;
        }
        i += 1;
    }
    assert(a@ =~= b@);
    true
}

} // verus!
