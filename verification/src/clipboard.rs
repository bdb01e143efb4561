//! Clipboard history: recording copied texts, pinning, deleting and clearing
//! them, the one-line preview the list shows, and the framing of the text
//! stream that the clipboard watcher reads.
use vstd::prelude::*;
use vstd::utf8::{decode_utf8, valid_utf8};
use crate::command::Invocation;
use crate::text::{
    chars_of, lines, slice_chars, split_lines, string_from_chars, trim, trim_chars, trim_end,
    views,
};

verus! {

/// How many unpinned entries the history keeps.
pub const MAX_HISTORY: usize = 100;

/// How many characters of a text the preview shows.
pub const PREVIEW_MAX_CHARS: usize = 40;

/// A copied text and whether the user pinned it.
#[derive(Clone, Debug)]
pub struct ClipEntry {
    pub text: String,
    pub pinned: bool,
}

/// The clipboard history, most recent first.
#[derive(Clone, Debug)]
pub struct ClipHistory {
    pub entries: Vec<ClipEntry>,
}

/// An entry as text and pinned flag.
pub type EntryView = (Seq<char>, bool);

pub open spec fn entry_views(es: Seq<ClipEntry>) -> Seq<EntryView> {
    es.map_values(|e: ClipEntry| (e.text@, e.pinned))
}

impl View for ClipHistory {
    type V = Seq<EntryView>;

    open spec fn view(&self) -> Seq<EntryView> {
        entry_views(self.entries@)
    }
}

pub open spec fn is_pinned(e: EntryView) -> bool {
    e.1
}

pub open spec fn is_unpinned(e: EntryView) -> bool {
    !e.1
}

/// Number of unpinned entries.
pub open spec fn unpinned_count(es: Seq<EntryView>) -> nat {
    es.filter(|e: EntryView| is_unpinned(e)).len()
}

/// No text occurs twice in the history.
pub open spec fn distinct_texts(es: Seq<EntryView>) -> bool {
    forall|a: int, b: int| 0 <= a < es.len() && 0 <= b < es.len() && a != b ==> es[a].0 != es[b].0
}

/// Index of the first entry with text `t`.
pub open spec fn index_of_text(es: Seq<EntryView>, t: Seq<char>) -> Option<int>
    decreases es.len(),
{
    if es.len() == 0 {
        None
    } else if es[0].0 == t {
        Some(0)
    } else {
        match index_of_text(es.drop_first(), t) {
            Some(k) => Some(k + 1),
            None => None,
        }
    }
}

/// Index of the last unpinned entry, or -1.
pub open spec fn last_unpinned(es: Seq<EntryView>) -> int
    decreases es.len(),
{
    if es.len() == 0 {
        -1
    } else if is_unpinned(es.last()) {
        es.len() - 1
    } else {
        last_unpinned(es.drop_last())
    }
}

/// The history after `t` was copied: a known text moves to the front; a new
/// text goes to the front unpinned, and when that makes more unpinned entries
/// than the history keeps, the oldest unpinned one goes.
pub open spec fn recorded(es: Seq<EntryView>, t: Seq<char>) -> Seq<EntryView> {
    match index_of_text(es, t) {
        Some(p) => seq![es[p]] + es.remove(p),
        None => {
            let grown = seq![(t, false)] + es;
            if unpinned_count(grown) > MAX_HISTORY {
                grown.remove(last_unpinned(grown))
            } else {
                grown
            }
        },
    }
}

/// The entries as the list shows them: pinned ones first, each group in history order.
pub open spec fn ordered(es: Seq<EntryView>) -> Seq<EntryView> {
    es.filter(|e: EntryView| is_pinned(e)) + es.filter(|e: EntryView| is_unpinned(e))
}

/// The first entry with text `t` gets its pin flipped.
pub open spec fn toggled(es: Seq<EntryView>, t: Seq<char>) -> Seq<EntryView> {
    match index_of_text(es, t) {
        Some(p) => es.update(p, (es[p].0, !es[p].1)),
        None => es,
    }
}

pub proof fn lemma_index_of_text(es: Seq<EntryView>, t: Seq<char>)
    ensures
        index_of_text(es, t) matches Some(p) ==> 0 <= p < es.len() && es[p].0 == t && forall|
            k: int,
        | 0 <= k < p ==> es[k].0 != t,
        index_of_text(es, t) is None ==> forall|k: int| 0 <= k < es.len() ==> es[k].0 != t,
    decreases es.len(),
{
    if es.len() > 0 && es[0].0 != t {
        lemma_index_of_text(es.drop_first(), t);
        assert forall|k: int| 0 < k < es.len() implies es[k] == es.drop_first()[k - 1] by {}
    }
}

proof fn lemma_index_of_same_texts(es: Seq<EntryView>, fs: Seq<EntryView>, t: Seq<char>)
    requires
        es.len() == fs.len(),
        forall|k: int| 0 <= k < es.len() ==> #[trigger] es[k].0 == fs[k].0,
    ensures
        index_of_text(es, t) == index_of_text(fs, t),
{
    lemma_index_of_text(es, t);
    lemma_index_of_text(fs, t);
    match index_of_text(es, t) {
        Some(p) => match index_of_text(fs, t) {
            Some(q) => {
                if p < q {
                    assert(fs[p].0 == es[p].0);
                } else if q < p {
                    assert(es[q].0 == fs[q].0);
                }
            },
            None => {
                assert(fs[p].0 == es[p].0);
            },
        },
        None => match index_of_text(fs, t) {
            Some(q) => {
                assert(es[q].0 == fs[q].0);
            },
            None => {},
        },
    }
}

/// Toggling the pin of a text flips the pin of the first entry with that
/// text and changes nothing else; toggling it again restores the history.
pub proof fn law_toggle_pin_flips(es: Seq<EntryView>, t: Seq<char>)
    ensures
        toggled(es, t).len() == es.len(),
        forall|k: int| 0 <= k < es.len() ==> #[trigger] toggled(es, t)[k].0 == es[k].0,
        forall|p: int|
            0 <= p < es.len() && es[p].0 == t && (forall|k: int| 0 <= k < p ==> es[k].0 != t) ==> {
                &&& #[trigger] toggled(es, t)[p].1 == !es[p].1
                &&& forall|k: int| 0 <= k < es.len() && k != p ==> toggled(es, t)[k] == es[k]
            },
        forall|k: int| 0 <= k < es.len() && es[k].0 != t ==> #[trigger] toggled(es, t)[k] == es[k],
        toggled(toggled(es, t), t) == es,
{
    lemma_index_of_text(es, t);
    let u = toggled(es, t);
    assert forall|k: int| 0 <= k < es.len() implies #[trigger] u[k].0 == es[k].0 by {}
    lemma_index_of_same_texts(u, es, t);
    assert forall|p: int|
        0 <= p < es.len() && es[p].0 == t && (forall|k: int| 0 <= k < p ==> es[k].0 != t) implies {
            &&& #[trigger] toggled(es, t)[p].1 == !es[p].1
            &&& forall|k: int| 0 <= k < es.len() && k != p ==> toggled(es, t)[k] == es[k]
        } by {
        match index_of_text(es, t) {
            Some(q) => {
                if q < p {
                    assert(es[q].0 != t);
                } else if p < q {
                    assert(es[p].0 != t);
                }
            },
            None => {
                assert(es[p].0 != t);
            },
        }
    }
    assert(toggled(u, t) =~= es);
}

pub proof fn lemma_last_unpinned(es: Seq<EntryView>)
    ensures
        -1 <= last_unpinned(es) < es.len(),
        last_unpinned(es) >= 0 ==> is_unpinned(es[last_unpinned(es)]),
        forall|k: int| last_unpinned(es) < k < es.len() ==> is_pinned(es[k]),
    decreases es.len(),
{
    if es.len() > 0 && !is_unpinned(es.last()) {
        lemma_last_unpinned(es.drop_last());
        assert forall|k: int| last_unpinned(es) < k < es.len() implies is_pinned(es[k]) by {
            if k < es.len() - 1 {
                assert(es[k] == es.drop_last()[k]);
            }
        }
    }
}

/// Filtering `s` splits around position `p`.
pub proof fn lemma_filter_split(s: Seq<EntryView>, p: int, f: spec_fn(EntryView) -> bool)
    requires
        0 <= p < s.len(),
    ensures
        s.filter(f) == s.take(p).filter(f) + seq![s[p]].filter(f) + s.skip(p + 1).filter(f),
        s.remove(p).filter(f) == s.take(p).filter(f) + s.skip(p + 1).filter(f),
{
    assert(s =~= s.take(p) + seq![s[p]] + s.skip(p + 1));
    assert(s.remove(p) =~= s.take(p) + s.skip(p + 1));
    Seq::filter_distributes_over_add(s.take(p) + seq![s[p]], s.skip(p + 1), f);
    Seq::filter_distributes_over_add(s.take(p), seq![s[p]], f);
    Seq::filter_distributes_over_add(s.take(p), s.skip(p + 1), f);
}

pub proof fn lemma_filter_single(e: EntryView, f: spec_fn(EntryView) -> bool)
    ensures
        seq![e].filter(f) == (if f(e) {
            seq![e]
        } else {
            Seq::<EntryView>::empty()
        }),
{
    reveal_with_fuel(Seq::filter, 2);
    assert(seq![e].drop_last() =~= Seq::<EntryView>::empty());
}

/// Counting unpinned entries around a removal.
pub proof fn lemma_count_remove(s: Seq<EntryView>, p: int)
    requires
        0 <= p < s.len(),
    ensures
        unpinned_count(s) == unpinned_count(s.remove(p)) + (if is_unpinned(s[p]) {
            1nat
        } else {
            0nat
        }),
{
    let f = |e: EntryView| is_unpinned(e);
    lemma_filter_split(s, p, f);
    lemma_filter_single(s[p], f);
}

/// Counting unpinned entries of a prepended entry.
pub proof fn lemma_count_prepend(e: EntryView, s: Seq<EntryView>)
    ensures
        unpinned_count(seq![e] + s) == unpinned_count(s) + (if is_unpinned(e) {
            1nat
        } else {
            0nat
        }),
{
    let f = |x: EntryView| is_unpinned(x);
    Seq::filter_distributes_over_add(seq![e], s, f);
    lemma_filter_single(e, f);
}

/// Recording a copied text puts it first in the history.
pub proof fn law_record_puts_text_first(es: Seq<EntryView>, t: Seq<char>)
    ensures
        recorded(es, t).len() > 0,
        recorded(es, t)[0].0 == t,
{
    lemma_index_of_text(es, t);
    match index_of_text(es, t) {
        Some(p) => {},
        None => {
            let grown = seq![(t, false)] + es;
            if unpinned_count(grown) > MAX_HISTORY {
                lemma_last_unpinned(grown);
                let k = last_unpinned(grown);
                assert(k >= 0) by {
                    if k < 0 {
                        assert(is_unpinned(grown[0]));
                    }
                }
                assert(k > 0) by {
                    if k == 0 {
                        lemma_count_remove(grown, 0);
                        assert(grown.remove(0) =~= es);
                        lemma_all_pinned_count(es);
                    }
                }
                assert(grown.remove(k)[0] == grown[0]);
            }
        },
    }
}

/// A history of pinned entries only has no unpinned entry.
pub proof fn lemma_all_pinned_count(es: Seq<EntryView>)
    requires
        forall|k: int| 0 <= k < es.len() ==> is_pinned(es[k]),
    ensures
        unpinned_count(es) == 0,
    decreases es.len(),
{
    reveal_with_fuel(Seq::filter, 1);
    if es.len() > 0 {
        lemma_all_pinned_count(es.drop_last());
    }
}

/// Recording never drops a pinned entry.
pub proof fn law_record_keeps_pinned(es: Seq<EntryView>, t: Seq<char>, e: EntryView)
    requires
        es.contains(e),
        is_pinned(e),
    ensures
        recorded(es, t).contains(e),
{
    lemma_index_of_text(es, t);
    let j = choose|j: int| 0 <= j < es.len() && es[j] == e;
    match index_of_text(es, t) {
        Some(p) => {
            let r = seq![es[p]] + es.remove(p);
            if j == p {
                assert(r[0] == e);
            } else if j < p {
                assert(r[j + 1] == e);
            } else {
                assert(r[j] == e);
            }
        },
        None => {
            let grown = seq![(t, false)] + es;
            assert(grown[j + 1] == e);
            if unpinned_count(grown) > MAX_HISTORY {
                lemma_last_unpinned(grown);
                let k = last_unpinned(grown);
                assert(k >= 0) by {
                    if k < 0 {
                        assert(is_unpinned(grown[0]));
                    }
                }
                let r = grown.remove(k);
                assert(k != j + 1);
                if j + 1 < k {
                    assert(r[j + 1] == e);
                } else {
                    let a = grown.subrange(0, k);
                    let b = grown.subrange(k + 1, grown.len() as int);
                    assert(r == a + b);
                    assert(a.len() == k);
                    assert(j >= k);
                    assert(j - k < b.len());
                    assert((a + b)[j] == b[j - k]);
                    assert(b[j - k] == grown[j + 1]);
                    assert(r[j] == e);
                }
            }
        },
    }
}

/// Recording keeps the number of unpinned entries within the limit.
pub proof fn law_record_bounded(es: Seq<EntryView>, t: Seq<char>)
    requires
        unpinned_count(es) <= MAX_HISTORY,
    ensures
        unpinned_count(recorded(es, t)) <= MAX_HISTORY,
{
    lemma_index_of_text(es, t);
    match index_of_text(es, t) {
        Some(p) => {
            lemma_count_remove(es, p);
            lemma_count_prepend(es[p], es.remove(p));
        },
        None => {
            let grown = seq![(t, false)] + es;
            lemma_count_prepend((t, false), es);
            if unpinned_count(grown) > MAX_HISTORY {
                lemma_last_unpinned(grown);
                let k = last_unpinned(grown);
                assert(k >= 0) by {
                    if k < 0 {
                        assert(is_unpinned(grown[0]));
                    }
                }
                lemma_count_remove(grown, k);
            }
        },
    }
}

/// Recording keeps every text in the history once.
pub proof fn law_record_keeps_texts_distinct(es: Seq<EntryView>, t: Seq<char>)
    requires
        distinct_texts(es),
    ensures
        distinct_texts(recorded(es, t)),
{
    lemma_index_of_text(es, t);
    match index_of_text(es, t) {
        Some(p) => {
            let r = seq![es[p]] + es.remove(p);
            let src = |k: int| if k == 0 { p } else if k <= p { k - 1 } else { k };
            assert forall|k: int| 0 <= k < r.len() implies r[k] == es[src(k)] by {}
            assert forall|a: int, b: int| 0 <= a < r.len() && 0 <= b < r.len() && a != b implies r[a].0
                != r[b].0 by {
                assert(r[a] == es[src(a)] && r[b] == es[src(b)]);
            }
        },
        None => {
            let grown = seq![(t, false)] + es;
            assert(distinct_texts(grown)) by {
                assert forall|a: int, b: int| 0 <= a < grown.len() && 0 <= b < grown.len() && a != b implies grown[a].0
                    != grown[b].0 by {
                    if a > 0 && b > 0 {
                        assert(grown[a] == es[a - 1] && grown[b] == es[b - 1]);
                    } else if a == 0 {
                        assert(grown[b] == es[b - 1]);
                    } else {
                        assert(grown[a] == es[a - 1]);
                    }
                }
            }
            if unpinned_count(grown) > MAX_HISTORY {
                lemma_last_unpinned(grown);
                let k = last_unpinned(grown);
                assert(k >= 0) by {
                    if k < 0 {
                        assert(is_unpinned(grown[0]));
                    }
                }
                let r = grown.remove(k);
                assert forall|a: int, b: int| 0 <= a < r.len() && 0 <= b < r.len() && a != b implies r[a].0
                    != r[b].0 by {
                    let sa = if a < k { a } else { a + 1 };
                    let sb = if b < k { b } else { b + 1 };
                    assert(r[a] == grown[sa] && r[b] == grown[sb]);
                }
            }
        },
    }
}

/// The list shows pinned entries before unpinned ones and shows every entry.
pub proof fn law_ordered_pinned_first(es: Seq<EntryView>)
    ensures
        ordered(es).len() == es.len(),
        forall|a: int, b: int|
            0 <= a < b < ordered(es).len() && is_unpinned(ordered(es)[a]) ==> is_unpinned(
                ordered(es)[b],
            ),
{
    let fp = |e: EntryView| is_pinned(e);
    let fu = |e: EntryView| is_unpinned(e);
    lemma_filter_partition_len(es);
    let p = es.filter(fp);
    let u = es.filter(fu);
    assert forall|a: int, b: int|
        0 <= a < b < ordered(es).len() && is_unpinned(ordered(es)[a]) implies is_unpinned(
        ordered(es)[b],
    ) by {
        if a < p.len() {
            es.lemma_filter_pred(fp, a);
        }
        if b >= p.len() {
            es.lemma_filter_pred(fu, b - p.len());
        } else {
            es.lemma_filter_pred(fp, b);
            es.lemma_filter_pred(fp, a);
        }
    }
}

pub proof fn lemma_filter_partition_len(es: Seq<EntryView>)
    ensures
        es.filter(|e: EntryView| is_pinned(e)).len() + es.filter(|e: EntryView| is_unpinned(e)).len()
            == es.len(),
    decreases es.len(),
{
    reveal_with_fuel(Seq::filter, 1);
    if es.len() > 0 {
        lemma_filter_partition_len(es.drop_last());
    }
}

/// Finds the first entry with text `t`.
fn find_text(entries: &Vec<ClipEntry>, t: &String) -> (r: Option<usize>)
    ensures
        r matches Some(p) ==> index_of_text(entry_views(entries@), t@) == Some(p as int),
        r is None ==> index_of_text(entry_views(entries@), t@) is None,
{
    let ghost es = entry_views(entries@);
    proof {
        lemma_index_of_text(es, t@);
    }
    let mut k: usize = 0;
    while k < entries.len()
        invariant
            k <= entries.len(),
            es == entry_views(entries@),
            forall|j: int| 0 <= j < k ==> es[j].0 != t@,
        decreases entries.len() - k,
    {
        if entries[k].text == *t {
            proof {
                assert(es[k as int].0 == t@);
                lemma_index_unique(es, t@, k as int);
            }
            return Some(k);
        }
        k = k + 1;
    }
    proof {
        if index_of_text(es, t@) is Some {
            let p = index_of_text(es, t@)->0;
            assert(es[p].0 == t@);
        }
    }
    None
}

proof fn lemma_index_unique(es: Seq<EntryView>, t: Seq<char>, k: int)
    requires
        0 <= k < es.len(),
        es[k].0 == t,
        forall|j: int| 0 <= j < k ==> es[j].0 != t,
    ensures
        index_of_text(es, t) == Some(k),
{
    lemma_index_of_text(es, t);
    match index_of_text(es, t) {
        Some(p) => {
            if p < k {
                assert(es[p].0 != t);
            }
            if p > k {
                assert(es[k].0 != t);
            }
        },
        None => {
            assert(es[k].0 != t);
        },
    }
}

/// Number of unpinned entries.
fn count_unpinned(entries: &Vec<ClipEntry>) -> (n: usize)
    ensures
        n == unpinned_count(entry_views(entries@)),
{
    let ghost es = entry_views(entries@);
    let mut n: usize = 0;
    let mut k: usize = 0;
    while k < entries.len()
        invariant
            k <= entries.len(),
            es == entry_views(entries@),
            n == unpinned_count(es.take(k as int)),
            n <= k,
        decreases entries.len() - k,
    {
        proof {
            assert(es.take(k + 1).drop_last() =~= es.take(k as int));
            reveal_with_fuel(Seq::filter, 1);
        }
        if !entries[k].pinned {
            n = n + 1;
        }
        k = k + 1;
    }
    proof {
        assert(es.take(entries.len() as int) =~= es);
    }
    n
}

/// Index of the last unpinned entry.
fn find_last_unpinned(entries: &Vec<ClipEntry>) -> (r: Option<usize>)
    ensures
        r matches Some(k) ==> last_unpinned(entry_views(entries@)) == k as int,
        r is None ==> last_unpinned(entry_views(entries@)) == -1,
{
    let ghost es = entry_views(entries@);
    let mut k: usize = entries.len();
    assert(es.take(k as int) =~= es);
    while k > 0
        invariant
            k <= entries.len(),
            es == entry_views(entries@),
            last_unpinned(es) == last_unpinned(es.take(k as int)),
        decreases k,
    {
        proof {
            assert(es.take(k as int).last() == es[k - 1]);
            assert(es.take(k as int).drop_last() =~= es.take(k - 1));
        }
        if !entries[k - 1].pinned {
            return Some(k - 1);
        }
        k = k - 1;
    }
    proof {
        assert(es.take(0) =~= Seq::<EntryView>::empty());
    }
    None
}

impl ClipHistory {
    /// An empty history.
    pub fn new() -> (h: ClipHistory)
        ensures
            h@ == Seq::<EntryView>::empty(),
    {
        let h = ClipHistory { entries: Vec::new() };
        assert(h@ =~= Seq::<EntryView>::empty());
        h
    }

    /// Records a copied text (see `recorded`).
    pub fn record(&mut self, text: String)
        ensures
            final(self)@ == recorded(old(self)@, text@),
    {
        let ghost es = self@;
        proof {
            lemma_index_of_text(es, text@);
        }
        match find_text(&self.entries, &text) {
            Some(p) => {
                let e: ClipEntry = self.entries.remove(p);
                self.entries.insert(0, e);
                proof {
                    assert(self@ =~= seq![es[p as int]] + es.remove(p as int));
                }
            },
            None => {
                self.entries.insert(0, ClipEntry { text, pinned: false });
                let ghost grown = self@;
                proof {
                    assert(grown =~= seq![(text@, false)] + es);
                }
                let unpinned: usize = count_unpinned(&self.entries);
                if unpinned > MAX_HISTORY {
                    match find_last_unpinned(&self.entries) {
                        Some(k) => {
                            proof {
                                lemma_last_unpinned(grown);
                            }
                            self.entries.remove(k);
                            proof {
                                assert(self@ =~= grown.remove(k as int));
                            }
                        },
                        None => {
                            proof {
                                lemma_last_unpinned(grown);
                                assert(is_unpinned(grown[0]));
                            }
                        },
                    }
                }
            },
        }
    }

    /// A text was copied: it is recorded unless private mode is on, and
    /// then the history stays as it was.
    pub fn on_copied(&mut self, text: String, private: bool)
        ensures
            final(self)@ == if private { old(self)@ } else { recorded(old(self)@, text@) },
    {
        if !private {
            self.record(text);
        }
    }

    /// The entries as the list shows them: pinned ones first.
    pub fn ordered_entries(&self) -> (r: Vec<(String, bool)>)
        ensures
            r@.map_values(|p: (String, bool)| (p.0@, p.1)) == ordered(self@),
    {
        let ghost es = self@;
        let mut r: Vec<(String, bool)> = Vec::new();
        let mut k: usize = 0;
        while k < self.entries.len()
            invariant
                k <= self.entries.len(),
                es == self@,
                r@.map_values(|p: (String, bool)| (p.0@, p.1)) == es.take(k as int).filter(
                    |e: EntryView| is_pinned(e),
                ),
            decreases self.entries.len() - k,
        {
            proof {
                assert(es.take(k + 1).drop_last() =~= es.take(k as int));
                reveal_with_fuel(Seq::filter, 1);
            }
            if self.entries[k].pinned {
                let ghost before = r@;
                r.push((self.entries[k].text.clone(), true));
                proof {
                    assert(r@.map_values(|p: (String, bool)| (p.0@, p.1)) =~= before.map_values(
                        |p: (String, bool)| (p.0@, p.1),
                    ).push(es[k as int]));
                }
            }
            k = k + 1;
        }
        let ghost pinned_part = r@.map_values(|p: (String, bool)| (p.0@, p.1));
        proof {
            assert(es.take(self.entries.len() as int) =~= es);
        }
        let mut k: usize = 0;
        while k < self.entries.len()
            invariant
                k <= self.entries.len(),
                es == self@,
                pinned_part == es.filter(|e: EntryView| is_pinned(e)),
                r@.map_values(|p: (String, bool)| (p.0@, p.1)) == pinned_part + es.take(
                    k as int,
                ).filter(|e: EntryView| is_unpinned(e)),
            decreases self.entries.len() - k,
        {
            proof {
                assert(es.take(k + 1).drop_last() =~= es.take(k as int));
                reveal_with_fuel(Seq::filter, 1);
            }
            if !self.entries[k].pinned {
                let ghost before = r@;
                r.push((self.entries[k].text.clone(), false));
                proof {
                    assert(r@.map_values(|p: (String, bool)| (p.0@, p.1)) =~= before.map_values(
                        |p: (String, bool)| (p.0@, p.1),
                    ).push(es[k as int]));
                }
            }
            k = k + 1;
        }
        proof {
            assert(es.take(self.entries.len() as int) =~= es);
        }
        r
    }

    /// Flips the pin of the entry with text `text`.
    pub fn toggle_pin(&mut self, text: &String)
        ensures
            final(self)@ == toggled(old(self)@, text@),
    {
        let ghost es = self@;
        proof {
            lemma_index_of_text(es, text@);
        }
        match find_text(&self.entries, text) {
            Some(p) => {
                let flipped: bool = !self.entries[p].pinned;
                let t: String = self.entries[p].text.clone();
                self.entries.set(p, ClipEntry { text: t, pinned: flipped });
                proof {
                    assert(self@ =~= es.update(p as int, (es[p as int].0, !es[p as int].1)));
                }
            },
            None => {},
        }
    }

    /// Deletes every entry with text `text`.
    pub fn delete(&mut self, text: &String)
        ensures
            final(self)@ == old(self)@.filter(|e: EntryView| e.0 != text@),
    {
        let ghost es = self@;
        let mut kept: Vec<ClipEntry> = Vec::new();
        let mut k: usize = 0;
        while k < self.entries.len()
            invariant
                k <= self.entries.len(),
                es == self@,
                entry_views(kept@) == es.take(k as int).filter(|e: EntryView| e.0 != text@),
            decreases self.entries.len() - k,
        {
            proof {
                assert(es.take(k + 1).drop_last() =~= es.take(k as int));
                reveal_with_fuel(Seq::filter, 1);
            }
            if self.entries[k].text != *text {
                let ghost before = kept@;
                kept.push(ClipEntry { text: self.entries[k].text.clone(), pinned: self.entries[k].pinned });
                proof {
                    assert(entry_views(kept@) =~= entry_views(before).push(es[k as int]));
                }
            }
            k = k + 1;
        }
        proof {
            assert(es.take(self.entries.len() as int) =~= es);
        }
        self.entries = kept;
    }

    /// Forgets every unpinned entry.
    pub fn clear(&mut self)
        ensures
            final(self)@ == old(self)@.filter(|e: EntryView| is_pinned(e)),
    {
        let ghost es = self@;
        let mut kept: Vec<ClipEntry> = Vec::new();
        let mut k: usize = 0;
        while k < self.entries.len()
            invariant
                k <= self.entries.len(),
                es == self@,
                entry_views(kept@) == es.take(k as int).filter(|e: EntryView| is_pinned(e)),
            decreases self.entries.len() - k,
        {
            proof {
                assert(es.take(k + 1).drop_last() =~= es.take(k as int));
                reveal_with_fuel(Seq::filter, 1);
            }
            if self.entries[k].pinned {
                let ghost before = kept@;
                kept.push(ClipEntry { text: self.entries[k].text.clone(), pinned: self.entries[k].pinned });
                proof {
                    assert(entry_views(kept@) =~= entry_views(before).push(es[k as int]));
                }
            }
            k = k + 1;
        }
        proof {
            assert(es.take(self.entries.len() as int) =~= es);
        }
        self.entries = kept;
    }

    /// Whether the list has any unpinned entry, which the Clear button removes.
    pub fn has_unpinned(&self) -> (r: bool)
        ensures
            r == (unpinned_count(self@) > 0),
    {
        count_unpinned(&self.entries) > 0
    }
}

/// The first line of `text`, or nothing when it has no line.
pub open spec fn first_line(text: Seq<char>) -> Seq<char> {
    if lines(text).len() > 0 {
        lines(text)[0]
    } else {
        seq![]
    }
}

/// The one-line preview of a copied text: its first line, trimmed; cut to
/// the preview length and marked `" ..."` when longer, or marked when more
/// lines follow.
pub open spec fn spec_preview(text: Seq<char>) -> Seq<char> {
    let first = trim(first_line(text));
    if first.len() > PREVIEW_MAX_CHARS {
        trim_end(first.take(PREVIEW_MAX_CHARS as int)) + " ..."@
    } else if lines(text).len() >= 2 {
        first + " ..."@
    } else {
        first
    }
}

fn trim_end_chars(s: &Vec<char>) -> (r: Vec<char>)
    ensures
        r@ == trim_end(s@),
{
    let mut b: usize = s.len();
    while b > 0 && crate::text::is_space_char(s[b - 1])
        invariant
            b <= s.len(),
            forall|k: int| b <= k < s.len() ==> crate::text::is_space(s@[k]),
        decreases b,
    {
        b = b - 1;
    }
    proof {
        crate::text::lemma_trim_end_take(s@, b as int);
        let u = s@.take(b as int);
        if b > 0 {
            assert(u.last() == s@[b - 1]);
        }
        assert(trim_end(u) == u);
        assert(u =~= s@.subrange(0, b as int));
    }
    slice_chars(s, 0, b)
}

fn push_ellipsis(v: &mut Vec<char>)
    ensures
        final(v)@ == old(v)@ + " ..."@,
{
    proof {
        reveal_strlit(" ...");
    }
    v.push(' ');
    v.push('.');
    v.push('.');
    v.push('.');
    assert(v@ =~= old(v)@ + " ..."@);
}

/// The one-line preview of a copied text (see `spec_preview`).
pub fn preview(text: &str) -> (r: String)
    ensures
        r@ == spec_preview(text@),
{
    let cs: Vec<char> = chars_of(text);
    let ls: Vec<Vec<char>> = split_lines(&cs);
    let empty: Vec<char> = Vec::new();
    let first_raw: &Vec<char> = if ls.len() > 0 {
        &ls[0]
    } else {
        &empty
    };
    assert(first_raw@ == first_line(text@)) by {
        if ls.len() > 0 {
            assert(views(ls@)[0] == ls@[0]@);
        }
    }
    let first: Vec<char> = trim_chars(first_raw);
    if first.len() > PREVIEW_MAX_CHARS {
        let short: Vec<char> = slice_chars(&first, 0, PREVIEW_MAX_CHARS);
        assert(short@ =~= first@.take(PREVIEW_MAX_CHARS as int));
        let mut out: Vec<char> = trim_end_chars(&short);
        push_ellipsis(&mut out);
        string_from_chars(&out)
    } else if ls.len() >= 2 {
        let mut out: Vec<char> = first;
        push_ellipsis(&mut out);
        string_from_chars(&out)
    } else {
        string_from_chars(&first)
    }
}

/// `String::from_utf8` (std): the text that `bytes` encode when they are
/// valid UTF-8, and an error (here none) when they are not.
#[verifier::external_body]
fn utf8_text(bytes: Vec<u8>) -> (r: Option<String>)
    ensures
        r is Some <==> valid_utf8(bytes@),
        r matches Some(s) ==> s@ == decode_utf8(bytes@),
{
    String::from_utf8(bytes).ok()
}

/// Splits the clipboard watcher's output into texts: each copy ends in a NUL
/// byte; empty records and records that are not UTF-8 yield no text.
#[derive(Clone, Debug)]
pub struct ClipFramer {
    pub buffer: Vec<u8>,
}

/// The records completed by a chunk: `pending` continues with `chunk`, and
/// every NUL ends a record.
pub open spec fn frames(pending: Seq<u8>, chunk: Seq<u8>) -> (Seq<Seq<u8>>, Seq<u8>)
    decreases chunk.len(),
{
    if chunk.len() == 0 {
        (seq![], pending)
    } else if chunk[0] == 0 {
        let (rest, left) = frames(seq![], chunk.drop_first());
        (seq![pending] + rest, left)
    } else {
        frames(pending.push(chunk[0]), chunk.drop_first())
    }
}

/// The texts that the records give: non-empty UTF-8 records, decoded.
pub open spec fn texts_of(records: Seq<Seq<u8>>) -> Seq<Seq<char>>
    decreases records.len(),
{
    if records.len() == 0 {
        seq![]
    } else {
        let r = records[0];
        let rest = texts_of(records.drop_first());
        if r.len() > 0 && valid_utf8(r) {
            seq![decode_utf8(r)] + rest
        } else {
            rest
        }
    }
}

impl ClipFramer {
    pub fn new() -> (f: ClipFramer)
        ensures
            f.buffer@ == Seq::<u8>::empty(),
    {
        ClipFramer { buffer: Vec::new() }
    }

    /// Takes the next chunk of output and gives the texts it completes.
    pub fn feed(&mut self, chunk: &[u8]) -> (texts: Vec<String>)
        ensures
            texts@.map_values(|s: String| s@) == texts_of(frames(old(self).buffer@, chunk@).0),
            final(self).buffer@ == frames(old(self).buffer@, chunk@).1,
    {
        let ghost start = self.buffer@;
        let mut texts: Vec<String> = Vec::new();
        let ghost mut done: Seq<Seq<u8>> = seq![];
        let mut k: usize = 0;
        proof {
            assert(chunk@.skip(0) =~= chunk@);
        }
        while k < chunk.len()
            invariant
                k <= chunk.len(),
                texts@.map_values(|s: String| s@) == texts_of(done),
                frames(start, chunk@) == ({
                    let (rest, left) = frames(self.buffer@, chunk@.skip(k as int));
                    (done + rest, left)
                }),
            decreases chunk.len() - k,
        {
            let b: u8 = chunk[k];
            let ghost rest_chunk = chunk@.skip(k as int);
            proof {
                assert(rest_chunk[0] == b);
                assert(rest_chunk.drop_first() =~= chunk@.skip(k + 1));
            }
            if b == 0 {
                let mut record: Vec<u8> = Vec::new();
                std::mem::swap(&mut record, &mut self.buffer);
                let ghost rec = record@;
                proof {
                    lemma_texts_of_push(done, rec);
                    let (r2, l2) = frames(seq![], chunk@.skip(k + 1));
                    assert(done + (seq![rec] + r2) =~= done.push(rec) + r2);
                }
                if record.len() > 0 {
                    match utf8_text(record) {
                        Some(t) => {
                            texts.push(t);
                        },
                        None => {},
                    }
                }
                proof {
                    done = done.push(rec);
                    assert(self.buffer@ =~= Seq::<u8>::empty());
                }
            } else {
                self.buffer.push(b);
            }
            k = k + 1;
        }
        proof {
            assert(chunk@.skip(chunk.len() as int) =~= Seq::<u8>::empty());
            assert(done + Seq::<Seq<u8>>::empty() =~= done);
        }
        texts
    }
}

pub proof fn lemma_texts_of_push(done: Seq<Seq<u8>>, r: Seq<u8>)
    ensures
        texts_of(done.push(r)) == texts_of(done) + (if r.len() > 0 && valid_utf8(r) {
            seq![decode_utf8(r)]
        } else {
            Seq::<Seq<char>>::empty()
        }),
    decreases done.len(),
{
    if done.len() == 0 {
        assert(done.push(r) =~= seq![r]);
        assert(seq![r].drop_first() =~= Seq::<Seq<u8>>::empty());
        assert(texts_of(done) == Seq::<Seq<char>>::empty());
        assert(texts_of(seq![r].drop_first()) == Seq::<Seq<char>>::empty());
        assert(seq![r][0] == r);
        assert(seq![decode_utf8(r)] + Seq::<Seq<char>>::empty() =~= seq![decode_utf8(r)]);
        assert(Seq::<Seq<char>>::empty() + Seq::<Seq<char>>::empty() =~= Seq::<Seq<char>>::empty());
    } else {
        assert(done.push(r).drop_first() =~= done.drop_first().push(r));
        assert(done.push(r)[0] == done[0]);
        lemma_texts_of_push(done.drop_first(), r);
        let tail = if r.len() > 0 && valid_utf8(r) {
            seq![decode_utf8(r)]
        } else {
            Seq::<Seq<char>>::empty()
        };
        let d0 = done[0];
        if d0.len() > 0 && valid_utf8(d0) {
            assert(seq![decode_utf8(d0)] + (texts_of(done.drop_first()) + tail) =~= (seq![
                decode_utf8(d0),
            ] + texts_of(done.drop_first())) + tail);
        }
    }
}

/// The watcher the clipboard history reads: `wl-paste` runs, for each
/// copied text, a shell that prints it followed by a NUL byte.
pub fn watch_invocation() -> (r: Invocation)
    ensures
        r.spec_parts() == ("wl-paste"@, seq![
            "--type"@,
            "text"@,
            "--watch"@,
            "sh"@,
            "-c"@,
            "cat; printf '\\0'"@,
        ]),
{
    Invocation::new("wl-paste").arg("--type").arg("text").arg("--watch").arg("sh").arg("-c").arg(
        "cat; printf '\\0'",
    )
}

/// `wl-copy`, which takes the text to copy on its standard input.
pub fn copy_invocation() -> (r: Invocation)
    ensures
        r.spec_parts() == ("wl-copy"@, Seq::<Seq<char>>::empty()),
{
    Invocation::new("wl-copy")
}

/// The icon and tooltip of an entry's pin button.
pub fn pin_button(pinned: bool) -> (r: (&'static str, &'static str))
    ensures
        r.0@ == if pinned { "starred-symbolic"@ } else { "non-starred-symbolic"@ },
        r.1@ == if pinned { "Unpin"@ } else { "Pin"@ },
{
    if pinned {
        ("starred-symbolic", "Unpin")
    } else {
        ("non-starred-symbolic", "Pin")
    }
}

} // verus!
