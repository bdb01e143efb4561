//! Facts about sequences that the modules of this crate share.
use vstd::prelude::*;

verus! {

/// Keeping some items of a sequence without repeats gives no repeats.
pub proof fn lemma_filter_no_duplicates<A>(s: Seq<A>, p: spec_fn(A) -> bool)
    requires
        s.no_duplicates(),
    ensures
        s.filter(p).no_duplicates(),
    decreases s.len(),
{
    reveal_with_fuel(Seq::filter, 1);
    if s.len() > 0 {
        let t = s.drop_last();
        assert(t.no_duplicates()) by {
            assert forall|a: int, b: int| 0 <= a < t.len() && 0 <= b < t.len() && a != b implies t[a]
                != t[b] by {
                assert(t[a] == s[a] && t[b] == s[b]);
            }
        }
        lemma_filter_no_duplicates(t, p);
        if p(s.last()) {
            assert(!t.filter(p).contains(s.last())) by {
                if t.filter(p).contains(s.last()) {
                    t.lemma_filter_contains_rev(p, s.last());
                    let j = choose|j: int| 0 <= j < t.len() && t[j] == s.last();
                    assert(s[j] == s[s.len() - 1]);
                }
            }
            let f = t.filter(p).push(s.last());
            assert forall|a: int, b: int| 0 <= a < f.len() && 0 <= b < f.len() && a != b implies f[a]
                != f[b] by {
                if a == f.len() - 1 {
                    assert(t.filter(p).contains(f[b]));
                } else if b == f.len() - 1 {
                    assert(t.filter(p).contains(f[a]));
                }
            }
        }
    }
}

/// An item is kept by a filter exactly when it is in the sequence and passes.
pub proof fn lemma_filter_contains_iff<A>(s: Seq<A>, p: spec_fn(A) -> bool, x: A)
    ensures
        s.filter(p).contains(x) <==> (s.contains(x) && p(x)),
{
    if s.filter(p).contains(x) {
        s.lemma_filter_contains_rev(p, x);
        let k = choose|k: int| 0 <= k < s.filter(p).len() && s.filter(p)[k] == x;
        s.lemma_filter_pred(p, k);
    }
    if s.contains(x) && p(x) {
        let k = choose|k: int| 0 <= k < s.len() && s[k] == x;
        s.lemma_filter_contains(p, k);
    }
}

} // verus!
