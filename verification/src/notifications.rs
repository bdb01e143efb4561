//! Notifications as the notification daemon lists them: which are shown,
//! which the user dismissed from history (kept in a file of hidden ids), and
//! the daemon commands that dismissing and do-not-disturb run.
use vstd::prelude::*;
use crate::audio::CommandOutput;
use crate::command::Invocation;
use crate::json::{json_document, member, member_in, parse_json, text_in, text_value, unsigned_in, unsigned_value, Json};
use crate::text::{
    chars_eq_str, chars_of, decimal, decimal_string, lines, parse_u32, parse_unsigned,
    push_decimal, split_lines, string_from_chars, trim, trim_chars, views,
};

verus! {

/// A notification, shown (`active`) or from history.
#[derive(Clone, Debug)]
pub struct Notification {
    pub id: u32,
    pub app_name: String,
    pub summary: String,
    pub body: String,
    pub active: bool,
}

/// One entry of the daemon's JSON listing, as far as it was present.
#[derive(Clone, Debug)]
pub struct MakoItem {
    pub id: Option<u64>,
    pub app_name: Option<String>,
    pub summary: Option<String>,
    pub body: Option<String>,
}

pub open spec fn text_or_empty(t: Option<String>) -> Seq<char> {
    match t {
        Some(s) => s@,
        None => seq![],
    }
}

/// The notification an entry of the listing describes (entries without an
/// id describe none; the id is cut to 32 bits as a cast does).
pub open spec fn item_notification(item: MakoItem, active: bool) -> Option<(u32, Seq<char>, Seq<char>, Seq<char>, bool)> {
    match item.id {
        Some(id) => Some(
            (
                id as u32,
                text_or_empty(item.app_name),
                text_or_empty(item.summary),
                text_or_empty(item.body),
                active,
            ),
        ),
        None => None,
    }
}

pub open spec fn notification_view(n: Notification) -> (u32, Seq<char>, Seq<char>, Seq<char>, bool) {
    (n.id, n.app_name@, n.summary@, n.body@, n.active)
}

pub open spec fn notification_views(ns: Seq<Notification>) -> Seq<(u32, Seq<char>, Seq<char>, Seq<char>, bool)> {
    ns.map_values(|n: Notification| notification_view(n))
}

/// The notifications of a listing, in its order.
pub open spec fn items_notifications(items: Seq<MakoItem>, active: bool) -> Seq<(u32, Seq<char>, Seq<char>, Seq<char>, bool)>
    decreases items.len(),
{
    if items.len() == 0 {
        seq![]
    } else {
        let rest = items_notifications(items.drop_last(), active);
        match item_notification(items.last(), active) {
            Some(n) => rest.push(n),
            None => rest,
        }
    }
}

fn text_or_empty_exec(t: &Option<String>) -> (r: String)
    ensures
        r@ == text_or_empty(*t),
{
    match t {
        Some(s) => s.clone(),
        None => String::new(),
    }
}

/// The notifications of the daemon's listing (`active` for the shown ones,
/// not for history).
pub fn notifications_from_items(items: &Vec<MakoItem>, active: bool) -> (r: Vec<Notification>)
    ensures
        notification_views(r@) == items_notifications(items@, active),
{
    let mut r: Vec<Notification> = Vec::new();
    let mut k: usize = 0;
    while k < items.len()
        invariant
            k <= items.len(),
            notification_views(r@) == items_notifications(items@.take(k as int), active),
        decreases items.len() - k,
    {
        proof {
            assert(items@.take(k + 1).drop_last() =~= items@.take(k as int));
            assert(items@.take(k + 1).last() == items@[k as int]);
        }
        let item: &MakoItem = &items[k];
        match item.id {
            Some(id) => {
                let ghost before = notification_views(r@);
                r.push(
                    Notification {
                        id: id as u32,
                        app_name: text_or_empty_exec(&item.app_name),
                        summary: text_or_empty_exec(&item.summary),
                        body: text_or_empty_exec(&item.body),
                        active,
                    },
                );
                proof {
                    assert(notification_views(r@) =~= before.push(
                        item_notification(*item, active)->0,
                    ));
                }
            },
            None => {},
        }
        k = k + 1;
    }
    proof {
        assert(items@.take(items.len() as int) =~= items@);
    }
    r
}

/// The entry an element of the daemon's JSON array describes.
pub open spec fn mako_item_of(item: Json) -> MakoItem {
    MakoItem {
        id: unsigned_in(member_in(Some(item), "id"@)),
        app_name: text_in(member_in(Some(item), "app_name"@)),
        summary: text_in(member_in(Some(item), "summary"@)),
        body: text_in(member_in(Some(item), "body"@)),
    }
}

/// The entries of the daemon's listing: one per element of its top-level
/// array, none where it is not an array.
pub open spec fn mako_items_of(doc: Json) -> Seq<MakoItem> {
    match doc {
        Json::Array(items) => items@.map_values(|item: Json| mako_item_of(item)),
        _ => seq![],
    }
}

fn mako_item(item: &Json) -> (r: MakoItem)
    ensures
        r == mako_item_of(*item),
{
    MakoItem {
        id: unsigned_value(member(Some(item), "id")),
        app_name: text_value(member(Some(item), "app_name")),
        summary: text_value(member(Some(item), "summary")),
        body: text_value(member(Some(item), "body")),
    }
}

/// The entries of the daemon's JSON listing, in its order.
pub fn mako_items(doc: &Json) -> (r: Vec<MakoItem>)
    ensures
        r@ == mako_items_of(*doc),
{
    let mut r: Vec<MakoItem> = Vec::new();
    let items: &Vec<Json> = match doc {
        Json::Array(items) => items,
        _ => {
            return r;
        },
    };
    let mut k: usize = 0;
    while k < items.len()
        invariant
            k <= items.len(),
            *doc == Json::Array(*items),
            r@ == items@.take(k as int).map_values(|item: Json| mako_item_of(item)),
        decreases items.len() - k,
    {
        r.push(mako_item(&items[k]));
        proof {
            assert(items@.take(k + 1).map_values(|item: Json| mako_item_of(item)) =~= r@);
        }
        k = k + 1;
    }
    proof {
        assert(items@.take(k as int) =~= items@);
    }
    r
}

/// The notifications a run of the daemon's listing command reports: none
/// where it could not run, failed, or printed no JSON document.
pub open spec fn spec_listed_notifications(output: Option<CommandOutput>, active: bool) -> Seq<
    (u32, Seq<char>, Seq<char>, Seq<char>, bool),
> {
    match output {
        Some(o) => if o.success {
            match json_document(o.stdout@) {
                Some(doc) => items_notifications(mako_items_of(doc), active),
                None => seq![],
            }
        } else {
            seq![]
        },
        None => seq![],
    }
}

/// The notifications from the run of `makoctl list -j` (`active`) or
/// `makoctl history -j`; none when it could not run.
pub fn notifications_from_output(output: &Option<CommandOutput>, active: bool) -> (r: Vec<
    Notification,
>)
    ensures
        notification_views(r@) == spec_listed_notifications(*output, active),
{
    let o: &CommandOutput = match output {
        Some(o) => o,
        None => {
            return Vec::new();
        },
    };
    if !o.success {
        return Vec::new();
    }
    match parse_json(o.stdout.as_slice()) {
        Some(doc) => notifications_from_items(&mako_items(&doc), active),
        None => Vec::new(),
    }
}

/// The daemon command that lists shown notifications (`history` false) or history.
pub fn list_invocation(history: bool) -> (r: Invocation)
    ensures
        r.spec_parts() == ("makoctl"@, seq![if history { "history"@ } else { "list"@ }, "-j"@]),
{
    let sub: &str = if history {
        "history"
    } else {
        "list"
    };
    let r = Invocation::new("makoctl").arg(sub).arg("-j");
    assert(r.spec_parts().1 =~= seq![if history { "history"@ } else { "list"@ }, "-j"@]);
    r
}

/// What the bar shows of the daemon's notifications, and what becomes of the
/// hidden ids.
#[derive(Clone, Debug)]
pub struct Listing {
    /// Shown notifications, then history, without hidden ones.
    pub notifications: Vec<Notification>,
    /// The hidden ids that still name a listed notification.
    pub hidden: Vec<u32>,
    /// Whether the file of hidden ids must be written again.
    pub save_hidden: bool,
}

pub open spec fn ids_of(ns: Seq<Notification>) -> Seq<u32> {
    ns.map_values(|n: Notification| n.id)
}

/// The hidden ids that still name a listed notification.
pub open spec fn pruned_hidden(all: Seq<Notification>, hidden: Seq<u32>) -> Seq<u32> {
    hidden.filter(|h: u32| ids_of(all).contains(h))
}

/// The notifications to show: all of them but the hidden ones.
pub open spec fn visible(all: Seq<Notification>, hidden: Seq<u32>) -> Seq<Notification> {
    all.filter(|n: Notification| !hidden.contains(n.id))
}

fn contains_id(v: &Vec<u32>, x: u32) -> (r: bool)
    ensures
        r == v@.contains(x),
{
    let mut k: usize = 0;
    while k < v.len()
        invariant
            k <= v.len(),
            forall|j: int| 0 <= j < k ==> v@[j] != x,
        decreases v.len() - k,
    {
        if v[k] == x {
            return true;
        }
        k = k + 1;
    }
    false
}

fn contains_notification_id(ns: &Vec<Notification>, x: u32) -> (r: bool)
    ensures
        r == ids_of(ns@).contains(x),
{
    let mut k: usize = 0;
    while k < ns.len()
        invariant
            k <= ns.len(),
            forall|j: int| 0 <= j < k ==> ns@[j].id != x,
        decreases ns.len() - k,
    {
        if ns[k].id == x {
            assert(ids_of(ns@)[k as int] == x);
            return true;
        }
        k = k + 1;
    }
    assert(!ids_of(ns@).contains(x)) by {
        if ids_of(ns@).contains(x) {
            let j = choose|j: int| 0 <= j < ids_of(ns@).len() && ids_of(ns@)[j] == x;
            assert(ns@[j].id == x);
        }
    }
    false
}

fn copy_notification(n: &Notification) -> (r: Notification)
    ensures
        r == *n,
{
    Notification {
        id: n.id,
        app_name: n.app_name.clone(),
        summary: n.summary.clone(),
        body: n.body.clone(),
        active: n.active,
    }
}

/// The hidden ids that are still among the visible ids, in their order:
/// ids of notifications that are gone are forgotten.
pub fn prune_hidden(hidden: &Vec<u32>, visible_ids: &Vec<u32>) -> (r: Vec<u32>)
    ensures
        r@ == hidden@.filter(|x: u32| visible_ids@.contains(x)),
{
    let mut pruned: Vec<u32> = Vec::new();
    let mut k: usize = 0;
    while k < hidden.len()
        invariant
            k <= hidden.len(),
            pruned@ == hidden@.take(k as int).filter(|x: u32| visible_ids@.contains(x)),
        decreases hidden.len() - k,
    {
        proof {
            assert(hidden@.take(k + 1).drop_last() =~= hidden@.take(k as int));
            reveal_with_fuel(Seq::filter, 1);
        }
        if contains_id(visible_ids, hidden[k]) {
            pruned.push(hidden[k]);
        }
        k = k + 1;
    }
    proof {
        assert(hidden@.take(hidden.len() as int) =~= hidden@);
    }
    pruned
}

/// The notifications the bar lists: the shown ones followed by history,
/// without those the user hid; hidden ids that no longer name a listed
/// notification are forgotten, and the file is written when any was.
pub fn list(active: Vec<Notification>, history: Vec<Notification>, hidden: &Vec<u32>) -> (r: Listing)
    requires
        hidden@.no_duplicates(),
    ensures
        r.hidden@ == pruned_hidden(active@ + history@, hidden@),
        r.notifications@ == visible(active@ + history@, hidden@),
        r.save_hidden == (r.hidden@.len() != hidden@.len()),
        r.hidden@.no_duplicates(),
{
    let mut all: Vec<Notification> = active;
    let mut h: Vec<Notification> = history;
    let ghost a0 = all@;
    let ghost h0 = h@;
    all.append(&mut h);
    assert(all@ == a0 + h0);
    let mut visible_ids: Vec<u32> = Vec::new();
    let mut k: usize = 0;
    while k < all.len()
        invariant
            k <= all.len(),
            visible_ids@ == ids_of(all@.take(k as int)),
        decreases all.len() - k,
    {
        visible_ids.push(all[k].id);
        proof {
            assert(ids_of(all@.take(k + 1)) =~= ids_of(all@.take(k as int)).push(all@[k as int].id));
        }
        k = k + 1;
    }
    proof {
        assert(all@.take(all.len() as int) =~= all@);
    }
    let pruned: Vec<u32> = prune_hidden(hidden, &visible_ids);
    proof {
        assert(pruned@ =~= hidden@.filter(|x: u32| ids_of(all@).contains(x)));
    }
    proof {
        crate::seqs::lemma_filter_no_duplicates(hidden@, |x: u32| ids_of(all@).contains(x));
        assert forall|n: Notification| ids_of(all@).contains(n.id) implies (pruned@.contains(n.id) <==> hidden@.contains(n.id)) by {
            crate::seqs::lemma_filter_contains_iff(hidden@, |x: u32| ids_of(all@).contains(x), n.id);
        }
    }
    let mut shown: Vec<Notification> = Vec::new();
    let mut k: usize = 0;
    while k < all.len()
        invariant
            k <= all.len(),
            shown@ == all@.take(k as int).filter(|n: Notification| !hidden@.contains(n.id)),
            forall|n: Notification| ids_of(all@).contains(n.id) ==> (pruned@.contains(n.id) <==> hidden@.contains(n.id)),
        decreases all.len() - k,
    {
        proof {
            assert(all@.take(k + 1).drop_last() =~= all@.take(k as int));
            reveal_with_fuel(Seq::filter, 1);
            assert(ids_of(all@)[k as int] == all@[k as int].id);
        }
        if !contains_id(&pruned, all[k].id) {
            assert(ids_of(all@).contains(all@[k as int].id));
            shown.push(copy_notification(&all[k]));
        }
        k = k + 1;
    }
    proof {
        assert(all@.take(all.len() as int) =~= all@);
    }
    let save: bool = pruned.len() != hidden.len();
    Listing { notifications: shown, hidden: pruned, save_hidden: save }
}

/// The id a line of the file of hidden ids holds.
pub open spec fn line_id(l: Seq<char>) -> Option<nat> {
    parse_unsigned(trim(l), u32::MAX as nat)
}

/// Some line of `text` holds the id `x`.
pub open spec fn text_has_id(text: Seq<char>, x: u32) -> bool {
    exists|i: int| 0 <= i < lines(text).len() && line_id(lines(text)[i]) == Some(x as nat)
}

/// The ids in the file of hidden ids: each line that holds a number, once each.
pub fn hidden_ids_from_text(text: &str) -> (r: Vec<u32>)
    ensures
        r@.no_duplicates(),
        forall|x: u32| r@.contains(x) <==> text_has_id(text@, x),
{
    let cs: Vec<char> = chars_of(text);
    let ls: Vec<Vec<char>> = split_lines(&cs);
    let ghost ln = lines(text@);
    let mut r: Vec<u32> = Vec::new();
    let mut k: usize = 0;
    while k < ls.len()
        invariant
            k <= ls.len(),
            views(ls@) == ln,
            ln == lines(text@),
            r@.no_duplicates(),
            forall|x: u32| r@.contains(x) <==> exists|i: int| 0 <= i < k && line_id(ln[i]) == Some(x as nat),
        decreases ls.len() - k,
    {
        let t: Vec<char> = trim_chars(&ls[k]);
        proof {
            assert(ln[k as int] == ls@[k as int]@);
        }
        let ghost old_r = r@;
        match parse_u32(&t) {
            Some(v) => {
                proof {
                    assert(line_id(ln[k as int]) == Some(v as nat));
                }
                if !contains_id(&r, v) {
                    let ghost before = r@;
                    r.push(v);
                    proof {
                        assert forall|a: int, b: int| 0 <= a < r@.len() && 0 <= b < r@.len() && a != b implies r@[a] != r@[b] by {
                            if a == r@.len() - 1 {
                                assert(before.contains(r@[b]) || b == a);
                            } else if b == r@.len() - 1 {
                                assert(before.contains(r@[a]));
                            }
                        }
                    }
                }
                proof {
                    assert forall|x: u32| r@.contains(x) <==> (old_r.contains(x) || x == v) by {
                        if r@.len() > old_r.len() {
                            assert(r@ == old_r.push(v));
                            if r@.contains(x) && x != v {
                                let j = choose|j: int| 0 <= j < r@.len() && r@[j] == x;
                                assert(old_r[j] == x);
                            }
                            if old_r.contains(x) {
                                let j = choose|j: int| 0 <= j < old_r.len() && old_r[j] == x;
                                assert(r@[j] == x);
                            }
                            assert(r@[old_r.len() as int] == v);
                        }
                    }
                    assert forall|x: u32| r@.contains(x) <==> exists|i: int| 0 <= i < k + 1 && line_id(ln[i]) == Some(x as nat) by {
                        let lhs = r@.contains(x);
                        let before = exists|i: int| 0 <= i < k && line_id(ln[i]) == Some(x as nat);
                        assert(old_r.contains(x) == before);
                        if x == v {
                            assert(line_id(ln[k as int]) == Some(x as nat));
                        }
                        if before {
                            let i = choose|i: int| 0 <= i < k && line_id(ln[i]) == Some(x as nat);
                            assert(0 <= i < k + 1 && line_id(ln[i]) == Some(x as nat));
                        }
                        if exists|i: int| 0 <= i < k + 1 && line_id(ln[i]) == Some(x as nat) {
                            let i = choose|i: int| 0 <= i < k + 1 && line_id(ln[i]) == Some(x as nat);
                            if i == k {
                                assert(x as nat == v as nat);
                            } else {
                                assert(before);
                            }
                        }
                    }
                }
            },
            None => {
                proof {
                    assert forall|x: u32| r@.contains(x) <==> exists|i: int| 0 <= i < k + 1 && line_id(ln[i]) == Some(x as nat) by {
                        if exists|i: int| 0 <= i < k + 1 && line_id(ln[i]) == Some(x as nat) {
                            let i = choose|i: int| 0 <= i < k + 1 && line_id(ln[i]) == Some(x as nat);
                            assert(i != k);
                        }
                    }
                }
            },
        }
        k = k + 1;
    }
    proof {
        assert forall|x: u32| r@.contains(x) <==> text_has_id(text@, x) by {}
    }
    r
}

/// The file of hidden ids: one id per line.
pub open spec fn joined_ids(ids: Seq<u32>) -> Seq<char>
    decreases ids.len(),
{
    if ids.len() == 0 {
        seq![]
    } else if ids.len() == 1 {
        decimal(ids[0] as nat)
    } else {
        decimal(ids[0] as nat) + seq!['\n'] + joined_ids(ids.drop_first())
    }
}

pub proof fn lemma_joined_push(ids: Seq<u32>, x: u32)
    ensures
        joined_ids(ids.push(x)) == if ids.len() == 0 {
            decimal(x as nat)
        } else {
            joined_ids(ids) + seq!['\n'] + decimal(x as nat)
        },
    decreases ids.len(),
{
    if ids.len() == 0 {
        assert(ids.push(x) =~= seq![x]);
    } else if ids.len() == 1 {
        assert(ids.push(x).drop_first() =~= seq![x]);
        assert(ids.push(x)[0] == ids[0]);
        assert(joined_ids(seq![x]) == decimal(x as nat));
    } else {
        assert(ids.push(x).drop_first() =~= ids.drop_first().push(x));
        assert(ids.push(x)[0] == ids[0]);
        lemma_joined_push(ids.drop_first(), x);
        assert(decimal(ids[0] as nat) + seq!['\n'] + (joined_ids(ids.drop_first()) + seq!['\n']
            + decimal(x as nat)) =~= decimal(ids[0] as nat) + seq!['\n'] + joined_ids(
            ids.drop_first(),
        ) + seq!['\n'] + decimal(x as nat));
    }
}

/// The text of the file of hidden ids.
pub fn hidden_text(ids: &Vec<u32>) -> (r: String)
    ensures
        r@ == joined_ids(ids@),
{
    let mut out: Vec<char> = Vec::new();
    let mut k: usize = 0;
    while k < ids.len()
        invariant
            k <= ids.len(),
            out@ == joined_ids(ids@.take(k as int)),
        decreases ids.len() - k,
    {
        proof {
            lemma_joined_push(ids@.take(k as int), ids@[k as int]);
            assert(ids@.take(k + 1) =~= ids@.take(k as int).push(ids@[k as int]));
        }
        if k > 0 {
            out.push('\n');
        }
        let ghost before = out@;
        push_decimal(&mut out, ids[k] as u64);
        proof {
            if k == 0 {
                assert(out@ =~= decimal(ids@[0] as nat));
            } else {
                assert(out@ =~= joined_ids(ids@.take(k as int)) + seq!['\n'] + decimal(ids@[k as int] as nat));
            }
        }
        k = k + 1;
    }
    proof {
        assert(ids@.take(ids.len() as int) =~= ids@);
    }
    string_from_chars(&out)
}

pub proof fn lemma_lines_split(a: Seq<char>, b: Seq<char>)
    requires
        forall|i: int| 0 <= i < a.len() ==> a[i] != '\n',
    ensures
        lines(a + seq!['\n'] + b) == seq![crate::text::strip_cr(a)] + lines(b),
{
    let s = a + seq!['\n'] + b;
    crate::text::lemma_line_end_is_first(s, a.len() as int);
    assert(s.take(a.len() as int) =~= a);
    assert(s.skip(a.len() as int + 1) =~= b);
}

pub proof fn lemma_lines_single(a: Seq<char>)
    requires
        a.len() > 0,
        forall|i: int| 0 <= i < a.len() ==> a[i] != '\n',
    ensures
        lines(a) == seq![a],
{
    crate::text::lemma_line_end_is_first(a, a.len() as int);
}

/// The file of hidden ids has one line per id, each the id's digits.
pub proof fn lemma_lines_of_joined(ids: Seq<u32>)
    ensures
        lines(joined_ids(ids)) == ids.map_values(|x: u32| decimal(x as nat)),
    decreases ids.len(),
{
    if ids.len() == 0 {
        assert(ids.map_values(|x: u32| decimal(x as nat)) =~= Seq::<Seq<char>>::empty());
    } else {
        let d = decimal(ids[0] as nat);
        crate::text::lemma_decimal_value(ids[0] as nat);
        assert forall|i: int| 0 <= i < d.len() implies d[i] != '\n' by {
            assert(crate::text::is_digit(d[i]));
        }
        assert(strip_cr_free(d)) by {
            assert(crate::text::is_digit(d.last()));
        }
        if ids.len() == 1 {
            lemma_lines_single(d);
            assert(ids.map_values(|x: u32| decimal(x as nat)) =~= seq![d]);
        } else {
            lemma_lines_split(d, joined_ids(ids.drop_first()));
            lemma_lines_of_joined(ids.drop_first());
            assert(ids.map_values(|x: u32| decimal(x as nat)) =~= seq![d] + ids.drop_first().map_values(
                |x: u32| decimal(x as nat),
            ));
        }
    }
}

pub open spec fn strip_cr_free(d: Seq<char>) -> bool {
    crate::text::strip_cr(d) == d
}

/// A number's digits read back as that number.
pub proof fn lemma_line_id_of_decimal(x: u32)
    ensures
        line_id(decimal(x as nat)) == Some(x as nat),
{
    let d = decimal(x as nat);
    crate::text::lemma_decimal_value(x as nat);
    assert(crate::text::is_digit(d[0]) && crate::text::is_digit(d.last()));
    assert(crate::text::trim_start(d) == d);
    assert(crate::text::trim_end(d) == d);
    crate::text::lemma_parse_decimal(x as nat, u32::MAX as nat);
}

/// Writing the hidden ids to their file and reading the file back gives the same set of ids.
pub proof fn law_hidden_ids_round_trip(ids: Seq<u32>, x: u32)
    ensures
        text_has_id(joined_ids(ids), x) <==> ids.contains(x),
{
    lemma_lines_of_joined(ids);
    let ls = lines(joined_ids(ids));
    if ids.contains(x) {
        let k = choose|k: int| 0 <= k < ids.len() && ids[k] == x;
        lemma_line_id_of_decimal(x);
        assert(ls[k] == decimal(x as nat));
    }
    if text_has_id(joined_ids(ids), x) {
        let i = choose|i: int| 0 <= i < ls.len() && line_id(ls[i]) == Some(x as nat);
        lemma_line_id_of_decimal(ids[i]);
        assert(ls[i] == decimal(ids[i] as nat));
        assert(ids[i] == x);
    }
}

/// `s` with `x` added unless it holds it already.
pub open spec fn with_id(s: Seq<u32>, x: u32) -> Seq<u32> {
    if s.contains(x) {
        s
    } else {
        s.push(x)
    }
}

fn add_id(v: &mut Vec<u32>, x: u32)
    requires
        old(v)@.no_duplicates(),
    ensures
        final(v)@ == with_id(old(v)@, x),
        final(v)@.no_duplicates(),
{
    if !contains_id(v, x) {
        let ghost before = v@;
        v.push(x);
        assert forall|a: int, b: int| 0 <= a < v@.len() && 0 <= b < v@.len() && a != b implies v@[a] != v@[b] by {
            if a == v@.len() - 1 {
                assert(before.contains(v@[b]));
            } else if b == v@.len() - 1 {
                assert(before.contains(v@[a]));
            }
        }
    }
}

/// What dismissing a notification does.
#[derive(Clone, Debug)]
pub enum Dismissal {
    /// Ask the daemon to dismiss the shown notification.
    Run(Invocation),
    /// The history entry joins the hidden ids, which become these.
    Hide(Vec<u32>),
}

/// Dismissing a shown notification asks the daemon; one from history is
/// added to the hidden ids.
pub fn dismiss(n: &Notification, hidden: &Vec<u32>) -> (r: Dismissal)
    requires
        hidden@.no_duplicates(),
    ensures
        n.active ==> (r matches Dismissal::Run(inv) && inv.spec_parts() == ("makoctl"@, seq![
            "dismiss"@,
            "-n"@,
            decimal(n.id as nat),
        ])),
        !n.active ==> (r matches Dismissal::Hide(h) && h@ == with_id(hidden@, n.id) && h@.no_duplicates()),
{
    if n.active {
        let inv = Invocation::new("makoctl").arg("dismiss").arg("-n").arg_string(decimal_string(n.id as u64));
        assert(inv.spec_parts().1 =~= seq!["dismiss"@, "-n"@, decimal(n.id as nat)]);
        Dismissal::Run(inv)
    } else {
        let mut h: Vec<u32> = hidden.clone();
        assert(h@ =~= hidden@);
        add_id(&mut h, n.id);
        Dismissal::Hide(h)
    }
}

/// The ids of the history entries among `ns`, added to `hidden`.
pub open spec fn hide_history(hidden: Seq<u32>, ns: Seq<Notification>) -> Seq<u32>
    decreases ns.len(),
{
    if ns.len() == 0 {
        hidden
    } else {
        let h = hide_history(hidden, ns.drop_last());
        if ns.last().active {
            h
        } else {
            with_id(h, ns.last().id)
        }
    }
}

/// Dismissing everything: the daemon dismisses all shown notifications, and
/// every history entry listed joins the hidden ids.
pub fn dismiss_all(ns: &Vec<Notification>, hidden: &Vec<u32>) -> (r: (Invocation, Vec<u32>))
    requires
        hidden@.no_duplicates(),
    ensures
        r.0.spec_parts() == ("makoctl"@, seq!["dismiss"@, "-a"@]),
        r.1@ == hide_history(hidden@, ns@),
        r.1@.no_duplicates(),
{
    let inv = Invocation::new("makoctl").arg("dismiss").arg("-a");
    assert(inv.spec_parts().1 =~= seq!["dismiss"@, "-a"@]);
    let mut h: Vec<u32> = hidden.clone();
    assert(h@ =~= hidden@);
    let mut k: usize = 0;
    while k < ns.len()
        invariant
            k <= ns.len(),
            h@ == hide_history(hidden@, ns@.take(k as int)),
            h@.no_duplicates(),
        decreases ns.len() - k,
    {
        proof {
            assert(ns@.take(k + 1).drop_last() =~= ns@.take(k as int));
        }
        if !ns[k].active {
            add_id(&mut h, ns[k].id);
        }
        k = k + 1;
    }
    proof {
        assert(ns@.take(ns.len() as int) =~= ns@);
    }
    (inv, h)
}

/// Some line of the daemon's mode listing is, trimmed, `do-not-disturb`.
pub open spec fn spec_dnd_active(stdout: Seq<char>) -> bool {
    exists|i: int| 0 <= i < lines(stdout).len() && trim(lines(stdout)[i]) == "do-not-disturb"@
}

/// Whether do-not-disturb mode is on, from the daemon's mode listing.
pub fn dnd_active(stdout: &str) -> (r: bool)
    ensures
        r == spec_dnd_active(stdout@),
{
    let cs: Vec<char> = chars_of(stdout);
    let ls: Vec<Vec<char>> = split_lines(&cs);
    let mut k: usize = 0;
    while k < ls.len()
        invariant
            k <= ls.len(),
            views(ls@) == lines(stdout@),
            forall|i: int| 0 <= i < k ==> trim(lines(stdout@)[i]) != "do-not-disturb"@,
        decreases ls.len() - k,
    {
        let t: Vec<char> = trim_chars(&ls[k]);
        proof {
            assert(lines(stdout@)[k as int] == ls@[k as int]@);
        }
        if chars_eq_str(&t, "do-not-disturb") {
            return true;
        }
        k = k + 1;
    }
    false
}

/// The daemon command that turns do-not-disturb mode on or off.
pub fn set_dnd(enabled: bool) -> (r: Invocation)
    ensures
        r.spec_parts() == ("makoctl"@, seq![
            "mode"@,
            if enabled { "-a"@ } else { "-r"@ },
            "do-not-disturb"@,
        ]),
{
    let flag: &str = if enabled {
        "-a"
    } else {
        "-r"
    };
    let inv = Invocation::new("makoctl").arg("mode").arg(flag).arg("do-not-disturb");
    assert(inv.spec_parts().1 =~= seq!["mode"@, if enabled { "-a"@ } else { "-r"@ }, "do-not-disturb"@]);
    inv
}

/// The daemon command that lists its modes.
pub fn mode_invocation() -> (r: Invocation)
    ensures
        r.spec_parts() == ("makoctl"@, seq!["mode"@]),
{
    let inv = Invocation::new("makoctl").arg("mode");
    assert(inv.spec_parts().1 =~= seq!["mode"@]);
    inv
}

/// The heading of a notification's row: its application, or "Notification".
pub fn row_title(n: &Notification) -> (r: String)
    ensures
        r@ == if n.app_name@.len() == 0 { "Notification"@ } else { n.app_name@ },
{
    if n.app_name.unicode_len() == 0 {
        crate::text::owned("Notification")
    } else {
        n.app_name.clone()
    }
}

/// The text of a notification's row: its summary, or its body when the summary is empty.
pub fn row_text(n: &Notification) -> (r: String)
    ensures
        r@ == if n.summary@.len() == 0 { n.body@ } else { n.summary@ },
{
    if n.summary.unicode_len() == 0 {
        n.body.clone()
    } else {
        n.summary.clone()
    }
}

/// The bar icon of the notification applet.
pub fn icon_name(dnd: bool) -> (r: &'static str)
    ensures
        r@ == if dnd { "notifications-disabled-symbolic"@ } else { "notification-symbolic"@ },
{
    if dnd {
        "notifications-disabled-symbolic"
    } else {
        "notification-symbolic"
    }
}

/// Some line of mako's configuration is, trimmed, the do-not-disturb section header.
pub open spec fn spec_has_dnd_section(raw: Seq<char>) -> bool {
    exists|i: int|
        0 <= i < lines(raw).len() && trim(lines(raw)[i]) == "[mode=do-not-disturb]"@
}

/// The block that defines the do-not-disturb mode in mako's configuration.
pub open spec fn dnd_block() -> Seq<char> {
    "[mode=do-not-disturb]\ninvisible=1\n"@
}

/// The configuration with the do-not-disturb block appended: on a line of
/// its own, after a newline is added to text that does not end in one.
pub open spec fn spec_with_dnd_block(raw: Seq<char>) -> Seq<char> {
    if raw.len() > 0 && raw.last() != '\n' {
        raw + seq!['\n'] + dnd_block()
    } else {
        raw + dnd_block()
    }
}

/// What mako's configuration becomes so that do-not-disturb can be used:
/// nothing changes when it already has the section, else the block is appended.
pub open spec fn spec_dnd_config_update(raw: Seq<char>) -> Option<Seq<char>> {
    if spec_has_dnd_section(raw) {
        None
    } else {
        Some(spec_with_dnd_block(raw))
    }
}

/// Whether mako's configuration already has the do-not-disturb section.
pub fn has_dnd_section(raw: &str) -> (r: bool)
    ensures
        r == spec_has_dnd_section(raw@),
{
    let cs: Vec<char> = chars_of(raw);
    let ls: Vec<Vec<char>> = split_lines(&cs);
    let mut k: usize = 0;
    while k < ls.len()
        invariant
            k <= ls.len(),
            views(ls@) == lines(raw@),
            forall|i: int| 0 <= i < k ==> trim(lines(raw@)[i]) != "[mode=do-not-disturb]"@,
        decreases ls.len() - k,
    {
        let t: Vec<char> = trim_chars(&ls[k]);
        proof {
            assert(lines(raw@)[k as int] == ls@[k as int]@);
        }
        if chars_eq_str(&t, "[mode=do-not-disturb]") {
            return true;
        }
        k = k + 1;
    }
    false
}

/// The new text of mako's configuration, when it needs the do-not-disturb
/// mode added; none when it has it already.
pub fn dnd_config_update(raw: &str) -> (r: Option<String>)
    ensures
        match r {
            Some(t) => spec_dnd_config_update(raw@) == Some(t@),
            None => spec_dnd_config_update(raw@) is None,
        },
{
    if has_dnd_section(raw) {
        return None;
    }
    let mut out: Vec<char> = chars_of(raw);
    if out.len() > 0 && out[out.len() - 1] != '\n' {
        out.push('\n');
    }
    crate::text::push_str(&mut out, "[mode=do-not-disturb]\ninvisible=1\n");
    Some(string_from_chars(&out))
}

/// The lines of a text that ends in a newline, followed by more text, are
/// its lines followed by those of the rest.
pub proof fn lemma_lines_append(a: Seq<char>, b: Seq<char>)
    requires
        a.len() == 0 || a.last() == '\n',
    ensures
        lines(a + b) == lines(a) + lines(b),
    decreases a.len(),
{
    if a.len() == 0 {
        assert(a + b =~= b);
        assert(lines(a) =~= Seq::<Seq<char>>::empty());
        assert(lines(a) + lines(b) =~= lines(b));
    } else {
        crate::text::lemma_line_end_bounds(a);
        let e = crate::text::line_end(a);
        if e == a.len() {
            assert(a[a.len() - 1] == '\n');
            assert(false);
        }
        let s = a + b;
        assert forall|i: int| 0 <= i < e implies s[i] != '\n' by {
            assert(s[i] == a[i]);
        }
        crate::text::lemma_line_end_is_first(s, e);
        assert(s.take(e) =~= a.take(e));
        assert(s.skip(e + 1) =~= a.skip(e + 1) + b);
        let rest = a.skip(e + 1);
        if rest.len() > 0 {
            assert(rest.last() == a.last());
        }
        lemma_lines_append(rest, b);
        assert(lines(a) == seq![crate::text::strip_cr(a.take(e))] + lines(rest));
        assert(lines(s) == seq![crate::text::strip_cr(a.take(e))] + lines(rest + b));
        assert(seq![crate::text::strip_cr(a.take(e))] + (lines(rest) + lines(b)) =~= (seq![
            crate::text::strip_cr(a.take(e)),
        ] + lines(rest)) + lines(b));
    }
}

proof fn lemma_dnd_block_lines()
    ensures
        lines(dnd_block()) == seq!["[mode=do-not-disturb]"@, "invisible=1"@],
{
    let h = "[mode=do-not-disturb]"@;
    let v = "invisible=1"@;
    reveal_strlit("[mode=do-not-disturb]\ninvisible=1\n");
    reveal_strlit("[mode=do-not-disturb]");
    reveal_strlit("invisible=1");
    assert(dnd_block() =~= h + seq!['\n'] + (v + seq!['\n']));
    lemma_lines_split(h, v + seq!['\n']);
    assert(v + seq!['\n'] =~= v + seq!['\n'] + Seq::<char>::empty());
    lemma_lines_split(v, Seq::<char>::empty());
    assert(crate::text::strip_cr(h) == h);
    assert(crate::text::strip_cr(v) == v);
    assert(lines(Seq::<char>::empty()) =~= Seq::<Seq<char>>::empty());
    assert(seq![v] + Seq::<Seq<char>>::empty() =~= seq![v]);
    assert(seq![h] + seq![v] =~= seq![h, v]);
}

/// Adding the do-not-disturb mode to mako's configuration is done once:
/// the updated configuration needs no further update.
pub proof fn law_dnd_update_idempotent(raw: Seq<char>)
    ensures
        spec_has_dnd_section(spec_with_dnd_block(raw)),
        spec_dnd_config_update(spec_with_dnd_block(raw)) is None,
{
    let h = "[mode=do-not-disturb]"@;
    let p = if raw.len() > 0 && raw.last() != '\n' {
        raw + seq!['\n']
    } else {
        raw
    };
    assert(spec_with_dnd_block(raw) =~= p + dnd_block());
    if p.len() > 0 {
        assert(p.last() == '\n' || (raw.len() > 0 && raw.last() == '\n' && p == raw));
    }
    lemma_lines_append(p, dnd_block());
    lemma_dnd_block_lines();
    let all = lines(p + dnd_block());
    assert(all[lines(p).len() as int] == h);
    reveal_strlit("[mode=do-not-disturb]");
    assert(crate::text::trim_start(h) == h);
    assert(crate::text::trim_end(h) == h);
    assert(trim(all[lines(p).len() as int]) == h);
}

/// A history entry the user dismissed is not listed again.
pub proof fn law_dismissed_history_stays_hidden(all: Seq<Notification>, hidden: Seq<u32>, id: u32)
    ensures
        forall|i: int|
            0 <= i < visible(all, with_id(hidden, id)).len() ==> #[trigger] visible(
                all,
                with_id(hidden, id),
            )[i].id != id,
{
    let h = with_id(hidden, id);
    assert(h.contains(id)) by {
        if !hidden.contains(id) {
            assert(h[h.len() - 1] == id);
        }
    }
    assert forall|i: int| 0 <= i < visible(all, h).len() implies visible(all, h)[i].id != id by {
        all.lemma_filter_pred(|n: Notification| !h.contains(n.id), i);
    }
}

proof fn lemma_hide_history_hides(hidden: Seq<u32>, ns: Seq<Notification>, k: int)
    requires
        0 <= k < ns.len(),
        !ns[k].active,
    ensures
        hide_history(hidden, ns).contains(ns[k].id),
    decreases ns.len(),
{
    if k < ns.len() - 1 {
        assert(ns.drop_last()[k] == ns[k]);
        lemma_hide_history_hides(hidden, ns.drop_last(), k);
        let h = hide_history(hidden, ns.drop_last());
        if !ns.last().active && !h.contains(ns.last().id) {
            let j = choose|j: int| 0 <= j < h.len() && h[j] == ns[k].id;
            assert(h.push(ns.last().id)[j] == ns[k].id);
        }
    } else {
        let h = hide_history(hidden, ns.drop_last());
        if !h.contains(ns.last().id) {
            assert(h.push(ns.last().id)[h.len() as int] == ns.last().id);
        }
    }
}

/// After "clear all", no history entry that was listed is listed again.
pub proof fn law_clear_all_hides_history(
    all: Seq<Notification>,
    hidden: Seq<u32>,
    ns: Seq<Notification>,
    k: int,
)
    requires
        0 <= k < ns.len(),
        !ns[k].active,
    ensures
        forall|i: int|
            0 <= i < visible(all, hide_history(hidden, ns)).len() ==> #[trigger] visible(
                all,
                hide_history(hidden, ns),
            )[i].id != ns[k].id,
{
    let h = hide_history(hidden, ns);
    lemma_hide_history_hides(hidden, ns, k);
    assert forall|i: int| 0 <= i < visible(all, h).len() implies visible(all, h)[i].id != ns[k].id by {
        all.lemma_filter_pred(|n: Notification| !h.contains(n.id), i);
    }
}

} // verus!
