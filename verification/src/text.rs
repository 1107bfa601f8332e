//! Character-level text primitives shared by the segmenter and the header
//! parser: substring match at a position, and leftmost occurrence search.

use vstd::prelude::*;
use vstd::string::*;

verus! {

/// The pattern `p` occurs in `s` starting at position `i`.
pub open spec fn match_at(s: Seq<char>, p: Seq<char>, i: int) -> bool {
    &&& 0 <= i
    &&& i + p.len() <= s.len()
    &&& forall|j: int| 0 <= j < p.len() ==> s[i + j] == p[j]
}

/// Position of the leftmost occurrence of `p` in `s` at or after `from`,
/// if there is one.
pub open spec fn first_match_from(s: Seq<char>, p: Seq<char>, from: int) -> Option<int>
    decreases s.len() - from,
{
    if from < 0 || from > s.len() {
        None
    } else if match_at(s, p, from) {
        Some(from)
    } else if from == s.len() {
        None
    } else {
        first_match_from(s, p, from + 1)
    }
}

/// If `p` occurs at `k` and nowhere in `[from, k)`, the leftmost occurrence
/// at or after `from` is `k`.
pub proof fn lemma_first_match_found(s: Seq<char>, p: Seq<char>, from: int, k: int)
    requires
        0 <= from <= k,
        match_at(s, p, k),
        forall|i: int| from <= i < k ==> !match_at(s, p, i),
    ensures
        first_match_from(s, p, from) == Some(k),
    decreases k - from,
{
    if from < k {
        lemma_first_match_found(s, p, from + 1, k);
    }
}

/// Whatever `first_match_from` returns is a real occurrence, the leftmost one
/// at or after `from`; `None` means there is none.
pub proof fn lemma_first_match_correct(s: Seq<char>, p: Seq<char>, from: int)
    requires
        0 <= from <= s.len(),
    ensures
        match first_match_from(s, p, from) {
            Some(k) => from <= k && match_at(s, p, k) && forall|i: int|
                from <= i < k ==> !match_at(s, p, i),
            None => forall|i: int| from <= i ==> !match_at(s, p, i),
        },
    decreases s.len() - from,
{
    if !match_at(s, p, from) && from < s.len() {
        lemma_first_match_correct(s, p, from + 1);
    }
}

/// True exactly when `p@` occurs in `s@` starting at character position `i`.
pub fn contains_at(s: &str, p: &str, i: usize) -> (b: bool)
    ensures
        b == match_at(s@, p@, i as int),
{
    let n = s.unicode_len();
    let m = p.unicode_len();
    if i > n || m > n - i {
        return false;
    }
    let mut j: usize = 0;
    while j < m
        invariant
            j <= m,
            i + m <= n,
            n == s@.len(),
            m == p@.len(),
            forall|k: int| 0 <= k < j ==> s@[i + k] == p@[k],
        decreases m - j,
    {
        if s.get_char(i + j) != p.get_char(j) {
            return false;
        }
        j += 1;
    }
    true
}

/// Character position of the leftmost occurrence of `p` in `s` at or after
/// `from`, if any.
pub fn find_from(s: &str, p: &str, from: usize) -> (r: Option<usize>)
    requires
        from <= s@.len(),
    ensures
        match r {
            Some(k) => first_match_from(s@, p@, from as int) == Some(k as int),
            None => first_match_from(s@, p@, from as int) is None,
        },
{
    let n = s.unicode_len();
    let mut i: usize = from;
    loop
        invariant
            from <= i <= n,
            n == s@.len(),
            first_match_from(s@, p@, from as int) == first_match_from(s@, p@, i as int),
        decreases n - i,
    {
        if contains_at(s, p, i) {
            return Some(i);
        }
        if i == n {
            return None;
        }
        i += 1;
    }
}

/// The views of `a` and `b` are equal.
pub fn str_eq(a: &str, b: &str) -> (r: bool)
    ensures
        r == (a@ == b@),
{
    let na = a.unicode_len();
    let nb = b.unicode_len();
    if na != nb {
        proof {
            assert(a@ != b@) by {
                assert(a@.len() != b@.len());
            }
        }
        return false;
    }
    let eq = contains_at(a, b, 0);
    proof {
        if eq {
            assert(a@ =~= b@);
        } else {
            assert(!match_at(a@, b@, 0));
            if a@ == b@ {
                assert(match_at(a@, b@, 0));
            }
        }
    }
    eq
}

} // verus!
