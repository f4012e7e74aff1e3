//! Searching byte sequences: occurrence of a pattern, first occurrence,
//! and small executable helpers over byte vectors.

use vstd::prelude::*;

verus! {

/// `pat` occurs in `s` at position `i`.
pub open spec fn is_match_at(s: Seq<u8>, pat: Seq<u8>, i: int) -> bool {
    0 <= i && i + pat.len() <= s.len() && s.subrange(i, i + pat.len()) == pat
}

/// `sub` occurs somewhere in `s`.
pub open spec fn contains_sub(s: Seq<u8>, sub: Seq<u8>) -> bool {
    exists|i: int| is_match_at(s, sub, i)
}

/// The first position at or after `from` where `pat` occurs in `s`, if any.
pub open spec fn find_from(s: Seq<u8>, pat: Seq<u8>, from: int) -> Option<int>
    decreases s.len() - from,
    when 0 <= from && pat.len() >= 1
{
    if from + pat.len() > s.len() {
        None
    } else if s.subrange(from, from + pat.len()) == pat {
        Some(from)
    } else {
        find_from(s, pat, from + 1)
    }
}

/// What `find_from` returns: the first occurrence of `pat` at or after
/// `from`, or nothing when there is none.
pub proof fn lemma_find_from(s: Seq<u8>, pat: Seq<u8>, from: int)
    requires
        0 <= from,
        pat.len() >= 1,
    ensures
        find_from(s, pat, from) is Some ==> {
            let i = find_from(s, pat, from).unwrap();
            &&& from <= i
            &&& is_match_at(s, pat, i)
            &&& forall|j: int| from <= j < i ==> !is_match_at(s, pat, j)
        },
        find_from(s, pat, from) is None ==> forall|j: int|
            from <= j ==> !is_match_at(s, pat, j),
    decreases s.len() - from,
{
    if from + pat.len() > s.len() {
        assert forall|j: int| from <= j implies !is_match_at(s, pat, j) by {}
    } else if s.subrange(from, from + pat.len()) == pat {
    } else {
        lemma_find_from(s, pat, from + 1);
    }
}

/// An occurrence inside a prefix stays the first occurrence when more
/// bytes follow: appending `ext` to `s` does not change where `pat` is
/// first found, as long as it was found at all.
pub proof fn lemma_find_from_prefix(s: Seq<u8>, ext: Seq<u8>, pat: Seq<u8>, from: int)
    requires
        0 <= from,
        pat.len() >= 1,
        find_from(s, pat, from) is Some,
    ensures
        find_from(s + ext, pat, from) == find_from(s, pat, from),
    decreases s.len() - from,
{
    if from + pat.len() > s.len() {
    } else if s.subrange(from, from + pat.len()) == pat {
        assert((s + ext).subrange(from, from + pat.len()) =~= pat);
    } else {
        assert((s + ext).subrange(from, from + pat.len()) =~= s.subrange(
            from,
            from + pat.len(),
        ));
        lemma_find_from_prefix(s, ext, pat, from + 1);
    }
}

/// A sub-sequence of the left part of a concatenation occurs in the whole.
pub proof fn lemma_contains_left(a: Seq<u8>, b: Seq<u8>, sub: Seq<u8>)
    requires
        contains_sub(a, sub),
    ensures
        contains_sub(a + b, sub),
{
    let i = choose|i: int| is_match_at(a, sub, i);
    assert((a + b).subrange(i, i + sub.len()) =~= sub);
    assert(is_match_at(a + b, sub, i));
}

/// A sub-sequence of the right part of a concatenation occurs in the whole.
pub proof fn lemma_contains_right(a: Seq<u8>, b: Seq<u8>, sub: Seq<u8>)
    requires
        contains_sub(b, sub),
    ensures
        contains_sub(a + b, sub),
{
    let i = choose|i: int| is_match_at(b, sub, i);
    assert((a + b).subrange(a.len() + i, a.len() + i + sub.len()) =~= sub);
    assert(is_match_at(a + b, sub, a.len() + i));
}

/// `pat` occurs at `i` and nowhere between `from` and `i`: the search
/// from `from` finds exactly `i`.
pub proof fn lemma_find_from_exact(s: Seq<u8>, pat: Seq<u8>, from: int, i: int)
    requires
        0 <= from <= i,
        pat.len() >= 1,
        is_match_at(s, pat, i),
        forall|j: int| from <= j < i ==> !is_match_at(s, pat, j),
    ensures
        find_from(s, pat, from) == Some(i),
    decreases i - from,
{
    if from == i {
    } else {
        assert(!is_match_at(s, pat, from));
        lemma_find_from_exact(s, pat, from + 1, i);
    }
}

/// `pat` occurs nowhere at or after `from`: the search finds nothing.
pub proof fn lemma_find_from_none(s: Seq<u8>, pat: Seq<u8>, from: int)
    requires
        0 <= from,
        pat.len() >= 1,
        forall|j: int| from <= j ==> !is_match_at(s, pat, j),
    ensures
        find_from(s, pat, from) is None,
    decreases s.len() - from,
{
    if from + pat.len() > s.len() {
    } else {
        assert(!is_match_at(s, pat, from));
        lemma_find_from_none(s, pat, from + 1);
    }
}

/// Appends a copy of `src` to `out`.
pub fn push_bytes(out: &mut Vec<u8>, src: &Vec<u8>)
    ensures
        final(out)@ == old(out)@ + src@,
{
    let n: usize = src.len();
    let mut i: usize = 0;
    while i < n
        invariant
            i <= n,
            n == src@.len(),
            out@ == old(out)@ + src@.take(i as int),
        decreases n - i,
    {
        out.push(src[i]);
        i = i + 1;
        proof {
            assert(out@ =~= old(out)@ + src@.take(i as int));
        }
    }
    proof {
        assert(src@.take(n as int) =~= src@);
    }
}

/// Copies the bytes of `s` between `a` and `b` into a fresh vector.
pub fn copy_range(s: &Vec<u8>, a: usize, b: usize) -> (r: Vec<u8>)
    requires
        a <= b <= s@.len(),
    ensures
        r@ == s@.subrange(a as int, b as int),
{
    let mut out: Vec<u8> = Vec::new();
    let mut i: usize = a;
    while i < b
        invariant
            a <= i <= b <= s@.len(),
            out@ == s@.subrange(a as int, i as int),
        decreases b - i,
    {
        out.push(s[i]);
        i = i + 1;
        proof {
            assert(out@ =~= s@.subrange(a as int, i as int));
        }
    }
    out
}

/// Whether two byte vectors hold the same bytes.
pub fn bytes_eq(a: &Vec<u8>, b: &Vec<u8>) -> (r: bool)
    ensures
        r == (a@ == b@),
{
    if a.len() != b.len() {
        return false;
    }
    let n: usize = a.len();
    let mut i: usize = 0;
    while i < n
        invariant
            i <= n,
            n == a@.len() == b@.len(),
            forall|j: int| 0 <= j < i ==> a@[j] == b@[j],
        decreases n - i,
    {
        if a[i] != b[i] {
            return false;
        }
        i = i + 1;
    }
    proof {
        assert(a@ =~= b@);
    }
    true
}

/// Finds the first occurrence of `pat` in `s` at or after `from`.
pub fn find_bytes(s: &Vec<u8>, pat: &Vec<u8>, from: usize) -> (r: Option<usize>)
    requires
        pat@.len() >= 1,
        from <= s@.len(),
    ensures
        r is Some ==> find_from(s@, pat@, from as int) == Some(r.unwrap() as int),
        r is None ==> find_from(s@, pat@, from as int) is None,
{
    let n: usize = s.len();
    let m: usize = pat.len();
    if m > n {
        proof {
            lemma_find_from_none(s@, pat@, from as int);
        }
        return None;
    }
    let last: usize = n - m;
    if from > last {
        proof {
            assert forall|j: int| from <= j implies !is_match_at(s@, pat@, j) by {}
            lemma_find_from_none(s@, pat@, from as int);
        }
        return None;
    }
    let mut i: usize = from;
    while i <= last
        invariant
            from <= i,
            m >= 1,
            i <= last + 1,
            last == n - m,
            m <= n,
            n == s@.len(),
            m == pat@.len(),
            forall|j: int| from <= j < i ==> !is_match_at(s@, pat@, j),
        decreases last + 1 - i,
    {
        let mut k: usize = 0;
        let mut hit: bool = true;
        while k < m
            invariant
                k <= m,
                i + m <= n,
                n == s@.len(),
                m == pat@.len(),
                hit == (forall|j: int| 0 <= j < k ==> s@[i + j] == pat@[j]),
            decreases m - k,
        {
            if s[i + k] != pat[k] {
                hit = false;
                k = m;
            } else {
                k = k + 1;
            }
        }
        if hit {
            proof {
                assert(s@.subrange(i as int, i + m) =~= pat@);
                lemma_find_from_exact(s@, pat@, from as int, i as int);
            }
            return Some(i);
        }
        proof {
            if is_match_at(s@, pat@, i as int) {
                assert(s@.subrange(i as int, i + m) == pat@);
                assert forall|j: int| 0 <= j < m implies s@[i + j] == #[trigger] pat@[j] by {
                    assert(s@.subrange(i as int, i + m)[j] == s@[i + j]);
                }
            }
        }
        i = i + 1;
    }
    proof {
        assert forall|j: int| from <= j implies !is_match_at(s@, pat@, j) by {
            if is_match_at(s@, pat@, j) {
                assert(j + m <= n);
            }
        }
        lemma_find_from_none(s@, pat@, from as int);
    }
    None
}

} // verus!
