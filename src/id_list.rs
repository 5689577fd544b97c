//! Facts about lists of task identifiers, used by the registry's proofs.

use vstd::prelude::*;

verus! {

/// `k` stands in `s` at some position in `[lo, hi)`.
pub open spec fn occurs_in(s: Seq<u128>, lo: int, hi: int, k: u128) -> bool {
    exists|j: int| lo <= j < hi && 0 <= j < s.len() && s[j] == k
}

pub(crate) proof fn lemma_occurs_front(s: Seq<u128>, lo: int, hi: int)
    requires
        0 <= lo < hi <= s.len(),
        s.no_duplicates(),
    ensures
        forall|k: u128|
            #[trigger] occurs_in(s, lo, hi, k) <==> (s[lo] == k || occurs_in(s, lo + 1, hi, k)),
        !occurs_in(s, lo + 1, hi, s[lo]),
{
    assert forall|k: u128| #[trigger] occurs_in(s, lo, hi, k) implies (s[lo] == k || occurs_in(
        s,
        lo + 1,
        hi,
        k,
    )) by {
        let j = choose|j: int| lo <= j < hi && 0 <= j < s.len() && s[j] == k;
        if j != lo {
            assert(lo + 1 <= j < hi && s[j] == k);
        }
    }
    assert forall|k: u128| s[lo] == k || occurs_in(s, lo + 1, hi, k) implies #[trigger] occurs_in(
        s,
        lo,
        hi,
        k,
    ) by {
        if s[lo] == k {
            assert(lo <= lo < hi && s[lo] == k);
        } else {
            let j = choose|j: int| lo + 1 <= j < hi && 0 <= j < s.len() && s[j] == k;
            assert(lo <= j < hi && s[j] == k);
        }
    }
    if occurs_in(s, lo + 1, hi, s[lo]) {
        let j = choose|j: int| lo + 1 <= j < hi && 0 <= j < s.len() && s[j] == s[lo];
        assert(j != lo);
    }
}

pub(crate) proof fn lemma_occurs_back(s: Seq<u128>, lo: int, hi: int)
    requires
        0 <= lo <= hi < s.len(),
    ensures
        forall|k: u128|
            #[trigger] occurs_in(s, lo, hi + 1, k) <==> (occurs_in(s, lo, hi, k) || s[hi] == k),
{
    assert forall|k: u128| #[trigger] occurs_in(s, lo, hi + 1, k) implies (occurs_in(s, lo, hi, k)
        || s[hi] == k) by {
        let j = choose|j: int| lo <= j < hi + 1 && 0 <= j < s.len() && s[j] == k;
        if j != hi {
            assert(lo <= j < hi && s[j] == k);
        }
    }
    assert forall|k: u128| occurs_in(s, lo, hi, k) || s[hi] == k implies #[trigger] occurs_in(
        s,
        lo,
        hi + 1,
        k,
    ) by {
        if s[hi] == k {
            assert(lo <= hi < hi + 1 && s[hi] == k);
        } else {
            let j = choose|j: int| lo <= j < hi && 0 <= j < s.len() && s[j] == k;
            assert(lo <= j < hi + 1 && s[j] == k);
        }
    }
}

pub(crate) proof fn lemma_occurs_no_duplicate(s: Seq<u128>, i: int)
    requires
        0 <= i < s.len(),
        s.no_duplicates(),
    ensures
        !occurs_in(s, 0, i, s[i]),
{
    if occurs_in(s, 0, i, s[i]) {
        let j = choose|j: int| 0 <= j < i && 0 <= j < s.len() && s[j] == s[i];
        assert(j != i);
    }
}

pub(crate) proof fn lemma_occurs_all(s: Seq<u128>, k: u128)
    ensures
        occurs_in(s, 0, s.len() as int, k) <==> s.contains(k),
{
    if s.contains(k) {
        let j = choose|j: int| 0 <= j < s.len() && s[j] == k;
        assert(0 <= j < s.len() && s[j] == k);
    }
}

pub(crate) proof fn lemma_push_contains(s: Seq<u128>, x: u128)
    ensures
        forall|k: u128| #[trigger] s.push(x).contains(k) <==> (s.contains(k) || k == x),
{
    assert forall|k: u128| #[trigger] s.push(x).contains(k) <==> (s.contains(k) || k == x) by {
        if s.contains(k) {
            let j = choose|j: int| 0 <= j < s.len() && s[j] == k;
            assert(s.push(x)[j] == k);
        }
        if s.push(x).contains(k) {
            let j = choose|j: int| 0 <= j < s.push(x).len() && s.push(x)[j] == k;
            if j < s.len() {
                assert(s[j] == k);
            }
        }
        if k == x {
            assert(s.push(x)[s.len() as int] == x);
        }
    }
}

pub(crate) proof fn lemma_push_no_duplicates(s: Seq<u128>, x: u128)
    requires
        s.no_duplicates(),
        !s.contains(x),
    ensures
        s.push(x).no_duplicates(),
{
    let t = s.push(x);
    assert forall|a: int, b: int| 0 <= a < t.len() && 0 <= b < t.len() && a != b implies t[a]
        != t[b] by {
        if a < s.len() {
            assert(s[a] == t[a]);
        }
        if b < s.len() {
            assert(s[b] == t[b]);
        }
    }
}

} // verus!
