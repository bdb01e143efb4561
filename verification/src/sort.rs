//! Stable sorting, as `slice::sort_by` does it: items that compare equal keep
//! their order. Also the lexicographic order of sequences that the sort keys use.
use vstd::prelude::*;

verus! {

/// An order to sort by: `spec_before(a, b)` says that `a` goes strictly
/// before `b`; it is a strict weak order.
pub trait SpecOrder: Sized {
    spec fn spec_before(&self, other: &Self) -> bool;

    proof fn lemma_irreflexive(a: Self)
        ensures
            !a.spec_before(&a),
    ;

    proof fn lemma_transitive(a: Self, b: Self, c: Self)
        requires
            a.spec_before(&b),
            b.spec_before(&c),
        ensures
            a.spec_before(&c),
    ;

    /// If `a` goes before `c`, any `b` goes after `a` or before `c`.
    proof fn lemma_split(a: Self, b: Self, c: Self)
        requires
            a.spec_before(&c),
        ensures
            a.spec_before(&b) || b.spec_before(&c),
    ;
}

/// An order that running code can decide.
pub trait SortKey: SpecOrder {
    fn before(&self, other: &Self) -> (r: bool)
        ensures
            r == self.spec_before(other),
    ;
}

/// Where an item goes in a sorted sequence: after every item it does not go before.
pub open spec fn insert_pos<T: SpecOrder>(r: Seq<T>, x: T) -> nat
    decreases r.len(),
{
    if r.len() == 0 {
        0
    } else if x.spec_before(&r.last()) {
        insert_pos(r.drop_last(), x)
    } else {
        r.len()
    }
}

pub open spec fn insert_sorted<T: SpecOrder>(r: Seq<T>, x: T) -> Seq<T> {
    let k = insert_pos(r, x) as int;
    r.take(k).push(x) + r.skip(k)
}

/// `s` stably sorted: each item in turn is put after the items before it
/// that it does not go before.
pub open spec fn stable_sorted<T: SpecOrder>(s: Seq<T>) -> Seq<T>
    decreases s.len(),
{
    if s.len() == 0 {
        seq![]
    } else {
        insert_sorted(stable_sorted(s.drop_last()), s.last())
    }
}

/// No item goes before an item in front of it.
pub open spec fn is_sorted<T: SpecOrder>(s: Seq<T>) -> bool {
    forall|a: int, b: int| 0 <= a < b < s.len() ==> !s[b].spec_before(&s[a])
}

pub proof fn lemma_insert_pos<T: SpecOrder>(r: Seq<T>, x: T)
    ensures
        insert_pos(r, x) <= r.len(),
        forall|m: int| insert_pos(r, x) <= m < r.len() ==> x.spec_before(&r[m]),
        insert_pos(r, x) > 0 ==> !x.spec_before(&r[insert_pos(r, x) - 1]),
    decreases r.len(),
{
    if r.len() > 0 && x.spec_before(&r.last()) {
        lemma_insert_pos(r.drop_last(), x);
        assert forall|m: int| insert_pos(r, x) <= m < r.len() implies x.spec_before(&r[m]) by {
            if m < r.len() - 1 {
                assert(r[m] == r.drop_last()[m]);
            }
        }
    }
}

/// A stably sorted sequence is sorted and as long as the original.
pub proof fn lemma_stable_sorted<T: SpecOrder>(s: Seq<T>)
    ensures
        is_sorted(stable_sorted(s)),
        stable_sorted(s).len() == s.len(),
    decreases s.len(),
{
    if s.len() > 0 {
        let r = stable_sorted(s.drop_last());
        lemma_stable_sorted(s.drop_last());
        let x = s.last();
        lemma_insert_pos(r, x);
        let k = insert_pos(r, x) as int;
        let out = insert_sorted(r, x);
        assert(out.len() == r.len() + 1);
        let src = |i: int| if i < k { i } else { i - 1 };
        assert forall|i: int| 0 <= i < out.len() && i != k implies out[i] == r[src(i)] by {}
        assert(out[k] == x);
        assert forall|i: int| 0 <= i < k implies !x.spec_before(&r[i]) by {
            if x.spec_before(&r[i]) {
                T::lemma_split(x, r[k - 1], r[i]);
                if i < k - 1 {
                    assert(!r[k - 1].spec_before(&r[i]));
                } else {
                    assert(i == k - 1);
                }
            }
        }
        assert forall|m: int| k <= m < r.len() implies !r[m].spec_before(&x) by {
            if r[m].spec_before(&x) {
                T::lemma_transitive(x, r[m], x);
                T::lemma_irreflexive(x);
            }
        }
        assert forall|a: int, b: int| 0 <= a < b < out.len() implies !out[b].spec_before(&out[a]) by {
            if a == k {
                assert(!r[src(b)].spec_before(&x));
            } else if b == k {
                assert(!x.spec_before(&r[src(a)]));
            } else {
                assert(src(a) < src(b));
            }
        }
    }
}

/// Position at which `x` goes into the sorted `out`.
fn find_insert_pos<T: SortKey>(out: &Vec<T>, x: &T) -> (k: usize)
    ensures
        k == insert_pos(out@, *x),
{
    let mut j: usize = out.len();
    proof {
        assert(out@.take(j as int) =~= out@);
    }
    while j > 0 && x.before(&out[j - 1])
        invariant
            j <= out.len(),
            insert_pos(out@, *x) == insert_pos(out@.take(j as int), *x),
        decreases j,
    {
        proof {
            assert(out@.take(j as int).last() == out@[j - 1]);
            assert(out@.take(j as int).drop_last() =~= out@.take(j - 1));
        }
        j = j - 1;
    }
    proof {
        if j > 0 {
            assert(out@.take(j as int).last() == out@[j - 1]);
        }
    }
    j
}

/// `v` stably sorted.
pub fn stable_sort<T: SortKey>(v: Vec<T>) -> (r: Vec<T>)
    ensures
        r@ == stable_sorted(v@),
{
    let ghost orig = v@;
    assert(orig.len() == v.len());
    let mut src: Vec<T> = v;
    let mut out: Vec<T> = Vec::new();
    let mut k: usize = 0;
    proof {
        assert(orig.take(0) =~= Seq::<T>::empty());
        assert(orig.skip(0) =~= orig);
    }
    while src.len() > 0
        invariant
            k <= orig.len(),
            orig.len() <= usize::MAX,
            src@ == orig.skip(k as int),
            out@ == stable_sorted(orig.take(k as int)),
        decreases src.len(),
    {
        let x: T = src.remove(0);
        proof {
            assert(orig.take(k + 1).drop_last() =~= orig.take(k as int));
            assert(orig.take(k + 1).last() == x);
            assert(src@ =~= orig.skip(k + 1));
        }
        let pos: usize = find_insert_pos(&out, &x);
        proof {
            lemma_insert_pos(out@, x);
        }
        let ghost before = out@;
        out.insert(pos, x);
        proof {
            assert(out@ =~= before.take(pos as int).push(x) + before.skip(pos as int));
        }
        k = k + 1;
    }
    proof {
        assert(orig.take(k as int) =~= orig);
    }
    out
}

/// Lexicographic order of integer sequences: the first difference decides,
/// and a proper prefix goes first.
pub open spec fn lex_less(a: Seq<int>, b: Seq<int>) -> bool
    decreases a.len(),
{
    if a.len() == 0 {
        b.len() > 0
    } else if b.len() == 0 {
        false
    } else if a[0] < b[0] {
        true
    } else if a[0] > b[0] {
        false
    } else {
        lex_less(a.drop_first(), b.drop_first())
    }
}

pub proof fn lemma_lex_irreflexive(a: Seq<int>)
    ensures
        !lex_less(a, a),
    decreases a.len(),
{
    if a.len() > 0 {
        lemma_lex_irreflexive(a.drop_first());
    }
}

pub proof fn lemma_lex_transitive(a: Seq<int>, b: Seq<int>, c: Seq<int>)
    requires
        lex_less(a, b),
        lex_less(b, c),
    ensures
        lex_less(a, c),
    decreases a.len(),
{
    if a.len() > 0 && b.len() > 0 && c.len() > 0 && a[0] == b[0] && b[0] == c[0] {
        lemma_lex_transitive(a.drop_first(), b.drop_first(), c.drop_first());
    }
}

pub proof fn lemma_lex_total(a: Seq<int>, b: Seq<int>)
    ensures
        lex_less(a, b) || lex_less(b, a) || a == b,
    decreases a.len(),
{
    if a.len() > 0 && b.len() > 0 && a[0] == b[0] {
        lemma_lex_total(a.drop_first(), b.drop_first());
        if a.drop_first() == b.drop_first() {
            assert(a =~= seq![a[0]] + a.drop_first());
            assert(b =~= seq![b[0]] + b.drop_first());
        }
    } else if a.len() == 0 && b.len() == 0 {
        assert(a =~= b);
    }
}

pub proof fn lemma_lex_split(a: Seq<int>, b: Seq<int>, c: Seq<int>)
    requires
        lex_less(a, c),
    ensures
        lex_less(a, b) || lex_less(b, c),
{
    lemma_lex_total(a, b);
    if lex_less(b, a) {
        lemma_lex_transitive(b, a, c);
    }
}

/// The characters of `s` as their code points.
pub open spec fn code_points(s: Seq<char>) -> Seq<int> {
    s.map_values(|c: char| c as int)
}

/// The order of `String`: by code point, which is also the order of their UTF-8 bytes.
pub open spec fn text_less(a: Seq<char>, b: Seq<char>) -> bool {
    lex_less(code_points(a), code_points(b))
}

pub open spec fn ints_of(s: Seq<i32>) -> Seq<int> {
    s.map_values(|x: i32| x as int)
}

/// Lexicographic comparison of two `i32` sequences.
pub fn ints_less(a: &Vec<i32>, b: &Vec<i32>) -> (r: bool)
    ensures
        r == lex_less(ints_of(a@), ints_of(b@)),
{
    let mut i: usize = 0;
    proof {
        assert(ints_of(a@).skip(0) =~= ints_of(a@));
        assert(ints_of(b@).skip(0) =~= ints_of(b@));
    }
    while i < a.len() && i < b.len()
        invariant
            i <= a.len(),
            i <= b.len(),
            lex_less(ints_of(a@), ints_of(b@)) == lex_less(ints_of(a@).skip(i as int), ints_of(b@).skip(i as int)),
        decreases a.len() - i,
    {
        let ghost sa = ints_of(a@).skip(i as int);
        let ghost sb = ints_of(b@).skip(i as int);
        assert(sa[0] == a@[i as int] as int);
        assert(sb[0] == b@[i as int] as int);
        if a[i] < b[i] {
            return true;
        }
        if a[i] > b[i] {
            return false;
        }
        proof {
            assert(sa.drop_first() =~= ints_of(a@).skip(i + 1));
            assert(sb.drop_first() =~= ints_of(b@).skip(i + 1));
        }
        i = i + 1;
    }
    i < b.len()
}

/// Lexicographic comparison of two texts by code point.
pub fn chars_less(a: &Vec<char>, b: &Vec<char>) -> (r: bool)
    ensures
        r == text_less(a@, b@),
{
    let mut i: usize = 0;
    proof {
        assert(code_points(a@).skip(0) =~= code_points(a@));
        assert(code_points(b@).skip(0) =~= code_points(b@));
    }
    while i < a.len() && i < b.len()
        invariant
            i <= a.len(),
            i <= b.len(),
            text_less(a@, b@) == lex_less(code_points(a@).skip(i as int), code_points(b@).skip(i as int)),
        decreases a.len() - i,
    {
        let ghost sa = code_points(a@).skip(i as int);
        let ghost sb = code_points(b@).skip(i as int);
        assert(sa[0] == a@[i as int] as int);
        assert(sb[0] == b@[i as int] as int);
        if a[i] < b[i] {
            return true;
        }
        if a[i] > b[i] {
            return false;
        }
        proof {
            assert(sa.drop_first() =~= code_points(a@).skip(i + 1));
            assert(sb.drop_first() =~= code_points(b@).skip(i + 1));
        }
        i = i + 1;
    }
    i < b.len()
}

/// Lexicographic comparison of two texts by code point, as `String`'s order.
pub fn text_less_str(a: &str, b: &str) -> (r: bool)
    ensures
        r == text_less(a@, b@),
{
    let ac: Vec<char> = crate::text::chars_of(a);
    let bc: Vec<char> = crate::text::chars_of(b);
    chars_less(&ac, &bc)
}

/// A sort key whose order is decided by a plain view of the item, so that
/// what sorting does can be said of the views alone.
pub trait SortView: SortKey {
    type V: SpecOrder;

    spec fn sort_view(&self) -> Self::V;

    proof fn lemma_view_before(a: Self, b: Self)
        ensures
            a.spec_before(&b) == a.sort_view().spec_before(&b.sort_view()),
    ;
}

pub open spec fn sort_views<T: SortView>(s: Seq<T>) -> Seq<T::V> {
    s.map_values(|x: T| x.sort_view())
}

proof fn lemma_insert_pos_view<T: SortView>(r: Seq<T>, x: T)
    ensures
        insert_pos(sort_views(r), x.sort_view()) == insert_pos(r, x),
    decreases r.len(),
{
    if r.len() > 0 {
        assert(sort_views(r).drop_last() =~= sort_views(r.drop_last()));
        T::lemma_view_before(x, r.last());
        lemma_insert_pos_view(r.drop_last(), x);
    }
}

/// The views of a stably sorted sequence are its views stably sorted.
pub proof fn lemma_sorted_views<T: SortView>(s: Seq<T>)
    ensures
        sort_views(stable_sorted(s)) == stable_sorted(sort_views(s)),
    decreases s.len(),
{
    if s.len() > 0 {
        lemma_sorted_views(s.drop_last());
        assert(sort_views(s).drop_last() =~= sort_views(s.drop_last()));
        let r = stable_sorted(s.drop_last());
        lemma_insert_pos_view(r, s.last());
        let k = insert_pos(r, s.last()) as int;
        lemma_insert_pos(r, s.last());
        assert(sort_views(r.take(k).push(s.last()) + r.skip(k)) =~= sort_views(r).take(k).push(
            s.last().sort_view(),
        ) + sort_views(r).skip(k));
    }
}

} // verus!
