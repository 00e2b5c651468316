//! Byte-sequence primitives: substring search and concatenation, with exact
//! specifications. Protocol lines are handled as byte sequences throughout.

use vstd::prelude::*;

verus! {

/// The needle `n` occurs in the haystack `h` at position `i`.
pub open spec fn match_at(h: Seq<u8>, n: Seq<u8>, i: int) -> bool {
    0 <= i && i + n.len() <= h.len() && h.subrange(i, i + n.len() as int) == n
}

/// Position of the first occurrence of `n` in `h` at or after `i`, if any.
pub open spec fn first_match_from(h: Seq<u8>, n: Seq<u8>, i: int) -> Option<int>
    decreases h.len() - i,
{
    if i < 0 || i + n.len() > h.len() {
        None
    } else if n.len() == 0 || match_at(h, n, i) {
        Some(i)
    } else {
        first_match_from(h, n, i + 1)
    }
}

/// Position of the first occurrence of `n` in `h`, if any.
pub open spec fn find_spec(h: Seq<u8>, n: Seq<u8>) -> Option<int> {
    first_match_from(h, n, 0)
}

/// `n` occurs somewhere in `h`.
pub open spec fn contains_seq(h: Seq<u8>, n: Seq<u8>) -> bool {
    find_spec(h, n) is Some
}

/// A found position is a genuine match and nothing earlier matches.
pub proof fn lemma_first_match_from_sound(h: Seq<u8>, n: Seq<u8>, i: int)
    requires
        0 <= i,
    ensures
        first_match_from(h, n, i) matches Some(p) ==> match_at(h, n, p)
            && i <= p
            && (forall|j: int| i <= j < p ==> !match_at(h, n, j)),
        first_match_from(h, n, i) is None ==> (forall|j: int| i <= j ==> !match_at(h, n, j)),
    decreases h.len() - i,
{
    if i + n.len() > h.len() {
    } else if n.len() == 0 || match_at(h, n, i) {
        if n.len() == 0 {
            assert(h.subrange(i, i) =~= n);
        }
    } else {
        lemma_first_match_from_sound(h, n, i + 1);
    }
}

/// Does `h[i..]` begin with `n`?
pub fn slice_matches_at(h: &[u8], n: &[u8], i: usize) -> (r: bool)
    requires
        i + n@.len() <= h@.len(),
    ensures
        r == match_at(h@, n@, i as int),
{
    let n_len = n.len();
    let h_len = h.len();
    let mut k: usize = 0;
    while k < n_len
        invariant
            n_len == n@.len(),
            h_len == h@.len(),
            i + n@.len() <= h@.len(),
            k <= n@.len(),
            forall|j: int| 0 <= j < k ==> h@[i + j] == n@[j],
        decreases n@.len() - k,
    {
        if h[i + k] != n[k] {
            assert(h@.subrange(i as int, i + n@.len() as int)[k as int] == h@[i + k]);
            return false;
        }
        k += 1;
    }
    assert(h@.subrange(i as int, i + n@.len() as int) =~= n@);
    true
}

/// Position of the first occurrence of `n` in `h` at or after `start`, if
/// any.
pub fn find_from(h: &[u8], n: &[u8], start: usize) -> (r: Option<usize>)
    ensures
        match r {
            Some(i) => first_match_from(h@, n@, start as int) == Some(i as int) && start <= i,
            None => first_match_from(h@, n@, start as int) is None,
        },
{
    if n.len() > h.len() || start > h.len() - n.len() {
        return None;
    }
    if n.len() == 0 {
        return Some(start);
    }
    let bound = h.len() - n.len();
    let mut i: usize = start;
    loop
        invariant
            0 < n@.len() <= h@.len(),
            bound == h@.len() - n@.len(),
            start <= i <= bound,
            first_match_from(h@, n@, start as int) == first_match_from(h@, n@, i as int),
        decreases bound - i,
    {
        if slice_matches_at(h, n, i) {
            return Some(i);
        }
        assert(first_match_from(h@, n@, i as int) == first_match_from(h@, n@, i + 1));
        if i == bound {
            return None;
        }
        i += 1;
    }
}

/// Position of the first occurrence of `n` in `h`, if any.
pub fn find_first(h: &[u8], n: &[u8]) -> (r: Option<usize>)
    ensures
        match r {
            Some(i) => find_spec(h@, n@) == Some(i as int),
            None => find_spec(h@, n@) is None,
        },
{
    find_from(h, n, 0)
}

/// Pushing one vector extends the viewed sequences by its bytes.
pub proof fn lemma_vecs_view_push(vs: Seq<Vec<u8>>, v: Vec<u8>)
    ensures
        vecs_view(vs.push(v)) =~= vecs_view(vs) + seq![v@],
{
}

/// The byte sequences held by a sequence of byte vectors.
pub open spec fn vecs_view(vs: Seq<Vec<u8>>) -> Seq<Seq<u8>> {
    Seq::new(vs.len(), |i: int| vs[i]@)
}

/// `h` begins with `n`.
pub open spec fn starts_with(h: Seq<u8>, n: Seq<u8>) -> bool {
    n.len() <= h.len() && h.subrange(0, n.len() as int) == n
}

/// Does `h` begin with `n`?
pub fn slice_starts_with(h: &[u8], n: &[u8]) -> (r: bool)
    ensures
        r == starts_with(h@, n@),
{
    if n.len() > h.len() {
        return false;
    }
    slice_matches_at(h, n, 0)
}

/// Are two byte strings equal?
pub fn bytes_eq(a: &[u8], b: &[u8]) -> (r: bool)
    ensures
        r == (a@ == b@),
{
    if a.len() != b.len() {
        return false;
    }
    let r = slice_matches_at(a, b, 0);
    proof {
        if r {
            assert(a@.subrange(0, b@.len() as int) =~= a@);
        } else {
            assert(a@.subrange(0, a@.len() as int) =~= a@);
        }
    }
    r
}

/// A fresh copy of a byte string.
pub fn copy_bytes(s: &[u8]) -> (r: Vec<u8>)
    ensures
        r@ == s@,
{
    let r = push_all(Vec::new(), s);
    assert(Seq::<u8>::empty() + s@ =~= s@);
    r
}

/// Append every byte of `s` to `acc`.
pub fn push_all(acc: Vec<u8>, s: &[u8]) -> (r: Vec<u8>)
    ensures
        r@ == acc@ + s@,
{
    let mut out = acc;
    let mut k: usize = 0;
    while k < s.len()
        invariant
            k <= s@.len(),
            out@ == acc@ + s@.subrange(0, k as int),
        decreases s@.len() - k,
    {
        out.push(s[k]);
        assert(s@.subrange(0, k + 1 as int) =~= s@.subrange(0, k as int).push(s@[k as int]));
        k += 1;
    }
    assert(s@.subrange(0, s@.len() as int) =~= s@);
    out
}

} // verus!
