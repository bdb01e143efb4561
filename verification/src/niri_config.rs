//! niri's configuration file as a KDL document, read and edited with the
//! `kdl` crate: the keyboard layouts are kept at `input` > `keyboard` >
//! `xkb` > `layout`. The document is modelled as a tree of nodes (name,
//! entries, children); the edit takes each node on the path out of its
//! document, edits its children and puts it back at its place.
use vstd::prelude::*;
use crate::keyboard::{
    kdl_escape, layout_entry_text, layout_node_text, niri_layout_value, niri_write_decision,
    spec_niri_write, NiriWrite,
};
use crate::text::{join, string_views, text_eq};

verus! {

#[verifier::external_type_specification]
#[verifier::external_body]
pub struct ExKdlDocument(kdl::KdlDocument);

#[verifier::external_type_specification]
#[verifier::external_body]
pub struct ExKdlNode(kdl::KdlNode);

#[verifier::external_type_specification]
#[verifier::external_body]
pub struct ExKdlEntry(kdl::KdlEntry);

/// A KDL node as far as this library reads it: its name (the identifier's
/// value), the source text of each entry (without the whitespace before
/// it), and its children block, where it has one.
pub struct KdlNodeModel {
    pub name: Seq<char>,
    pub entries: Seq<Seq<char>>,
    pub children: Option<Seq<KdlNodeModel>>,
}

/// The nodes of the document that the `kdl` crate's KDL v1 parser reads
/// from `text`; `None` where it reports an error.
pub uninterp spec fn kdl_v1_document(text: Seq<char>) -> Option<Seq<KdlNodeModel>>;

/// Whether the KDL v1 parser of the `kdl` crate accepts `text`.
pub open spec fn kdl_v1_accepts(text: Seq<char>) -> bool {
    kdl_v1_document(text) is Some
}

/// The nodes of a document, in order.
pub uninterp spec fn kdl_doc_model(d: kdl::KdlDocument) -> Seq<KdlNodeModel>;

/// What a node holds.
pub uninterp spec fn kdl_node_model(n: kdl::KdlNode) -> KdlNodeModel;

/// The text a document prints as.
pub uninterp spec fn kdl_printed(d: kdl::KdlDocument) -> Seq<char>;

/// The source text of an entry.
pub uninterp spec fn kdl_entry_text(e: kdl::KdlEntry) -> Seq<char>;

/// Whether `kdl::KdlEntry::parse_v1` reads an entry from `text`.
pub uninterp spec fn kdl_v1_entry_accepts(text: Seq<char>) -> bool;

/// The node that `text.parse::<kdl::KdlNode>()` reads; `None` where it
/// reports an error.
pub uninterp spec fn kdl_node_parsed(text: Seq<char>) -> Option<KdlNodeModel>;

/// `kdl::KdlDocument::parse_v1`: the document it reads from `text`, `None`
/// where it reports an error. Which texts it accepts and what it reads
/// from them is named, not restated.
#[verifier::external_body]
pub(crate) fn kdl_parse_v1(text: &str) -> (r: Option<kdl::KdlDocument>)
    ensures
        match r {
            Some(d) => kdl_v1_document(text@) == Some(kdl_doc_model(d)),
            None => kdl_v1_document(text@) is None,
        },
{
    kdl::KdlDocument::parse_v1(text).ok()
}

/// `Display` of `kdl::KdlDocument` (through `to_string`): the document's
/// text, with the formatting it was read with.
#[verifier::external_body]
fn kdl_to_string(d: &kdl::KdlDocument) -> (r: String)
    ensures
        r@ == kdl_printed(*d),
{
    d.to_string()
}

/// The length of `kdl::KdlDocument::nodes`: how many nodes the document
/// has.
#[verifier::external_body]
fn kdl_len(d: &kdl::KdlDocument) -> (r: usize)
    ensures
        r == kdl_doc_model(*d).len(),
{
    d.nodes().len()
}

/// `kdl::KdlNode::name` of node `i` of `kdl::KdlDocument::nodes`, by the
/// identifier's value.
#[verifier::external_body]
fn kdl_name_at(d: &kdl::KdlDocument, i: usize) -> (r: String)
    requires
        i < kdl_doc_model(*d).len(),
    ensures
        r@ == kdl_doc_model(*d)[i as int].name,
{
    d.nodes()[i].name().value().to_string()
}

/// `Vec::remove` on `kdl::KdlDocument::nodes_mut`: takes node `i` out.
#[verifier::external_body]
fn kdl_remove_node(d: &mut kdl::KdlDocument, i: usize) -> (r: kdl::KdlNode)
    requires
        i < kdl_doc_model(*old(d)).len(),
    ensures
        kdl_doc_model(*final(d)) == kdl_doc_model(*old(d)).remove(i as int),
        kdl_node_model(r) == kdl_doc_model(*old(d))[i as int],
{
    d.nodes_mut().remove(i)
}

/// `Vec::insert` on `kdl::KdlDocument::nodes_mut`: puts `n` at index `i`.
#[verifier::external_body]
fn kdl_insert_node(d: &mut kdl::KdlDocument, i: usize, n: kdl::KdlNode)
    requires
        i <= kdl_doc_model(*old(d)).len(),
    ensures
        kdl_doc_model(*final(d)) == kdl_doc_model(*old(d)).insert(i as int, kdl_node_model(n)),
{
    d.nodes_mut().insert(i, n)
}

/// `kdl::KdlNode::new`: a node with this name, no entries and no children.
#[verifier::external_body]
fn kdl_new_node(name: &str) -> (r: kdl::KdlNode)
    ensures
        kdl_node_model(r) == (KdlNodeModel { name: name@, entries: seq![], children: None }),
{
    kdl::KdlNode::new(name)
}

/// `kdl::KdlNode::children_mut`, taken: the node's children as a document
/// of their own (an empty one where it had none); the node is left without
/// a children block.
#[verifier::external_body]
fn kdl_take_children(n: &mut kdl::KdlNode) -> (r: kdl::KdlDocument)
    ensures
        kdl_doc_model(r) == children_of(kdl_node_model(*old(n))),
        kdl_node_model(*final(n)) == (KdlNodeModel {
            name: kdl_node_model(*old(n)).name,
            entries: kdl_node_model(*old(n)).entries,
            children: None,
        }),
{
    n.children_mut().take().unwrap_or_default()
}

/// `kdl::KdlNode::set_children`: `c` becomes the node's children block.
#[verifier::external_body]
fn kdl_set_children(n: &mut kdl::KdlNode, c: kdl::KdlDocument)
    ensures
        kdl_node_model(*final(n)) == with_children(kdl_node_model(*old(n)), kdl_doc_model(c)),
{
    n.set_children(c)
}

/// `kdl::KdlEntry::parse_v1`: the entry written as `text`, `None` where it
/// reports an error.
#[verifier::external_body]
fn kdl_entry_parse_v1(text: &str) -> (r: Option<kdl::KdlEntry>)
    ensures
        (r is Some) == kdl_v1_entry_accepts(text@),
        r matches Some(e) ==> kdl_entry_text(e) == text@,
{
    kdl::KdlEntry::parse_v1(text).ok()
}

/// `kdl::KdlNode::entries_mut` cleared, then `kdl::KdlNode::push`: `e`
/// becomes the node's only entry.
#[verifier::external_body]
fn kdl_set_entry(n: &mut kdl::KdlNode, e: kdl::KdlEntry)
    ensures
        kdl_node_model(*final(n)) == (KdlNodeModel {
            name: kdl_node_model(*old(n)).name,
            entries: seq![kdl_entry_text(e)],
            children: kdl_node_model(*old(n)).children,
        }),
{
    n.entries_mut().clear();
    n.push(e)
}

/// `str::parse::<kdl::KdlNode>`: the node written as `text`, `None` where
/// it reports an error.
#[verifier::external_body]
fn kdl_node_parse(text: &str) -> (r: Option<kdl::KdlNode>)
    ensures
        match r {
            Some(n) => kdl_node_parsed(text@) == Some(kdl_node_model(n)),
            None => kdl_node_parsed(text@) is None,
        },
{
    text.parse::<kdl::KdlNode>().ok()
}

/// A node's children (none where it has no children block).
pub open spec fn children_of(n: KdlNodeModel) -> Seq<KdlNodeModel> {
    match n.children {
        Some(c) => c,
        None => seq![],
    }
}

/// `n` with `c` as its children block.
pub open spec fn with_children(n: KdlNodeModel, c: Seq<KdlNodeModel>) -> KdlNodeModel {
    KdlNodeModel { name: n.name, entries: n.entries, children: Some(c) }
}

/// Some node of `ns` is named `name`.
pub open spec fn has_named(ns: Seq<KdlNodeModel>, name: Seq<char>) -> bool {
    exists|j: int| 0 <= j < ns.len() && #[trigger] ns[j].name == name
}

/// Node `i` is the first node of `ns` named `name`.
pub open spec fn is_first_named(ns: Seq<KdlNodeModel>, name: Seq<char>, i: int) -> bool {
    &&& 0 <= i < ns.len()
    &&& ns[i].name == name
    &&& forall|j: int| 0 <= j < i ==> #[trigger] ns[j].name != name
}

/// The index of the first node named `name`.
pub open spec fn named_index(ns: Seq<KdlNodeModel>, name: Seq<char>) -> int {
    choose|i: int| is_first_named(ns, name, i)
}

/// `ns` with a node named `name` added at the end where it has none.
pub open spec fn ensured(ns: Seq<KdlNodeModel>, name: Seq<char>) -> Seq<KdlNodeModel> {
    if has_named(ns, name) {
        ns
    } else {
        ns.push(KdlNodeModel { name, entries: seq![], children: None })
    }
}

/// `ns` after its first node named `name` (added where missing) got its
/// children replaced by `f` of them.
pub open spec fn edit_child(
    ns: Seq<KdlNodeModel>,
    name: Seq<char>,
    f: spec_fn(Seq<KdlNodeModel>) -> Seq<KdlNodeModel>,
) -> Seq<KdlNodeModel> {
    let e = ensured(ns, name);
    let i = named_index(e, name);
    e.update(i, with_children(e[i], f(children_of(e[i]))))
}

/// The children of the first node named `name`, once it is ensured.
pub open spec fn child_nodes(ns: Seq<KdlNodeModel>, name: Seq<char>) -> Seq<KdlNodeModel> {
    let e = ensured(ns, name);
    children_of(e[named_index(e, name)])
}

/// The nodes under `input` > `keyboard` > `xkb`.
pub open spec fn xkb_nodes(doc: Seq<KdlNodeModel>) -> Seq<KdlNodeModel> {
    child_nodes(child_nodes(child_nodes(doc, "input"@), "keyboard"@), "xkb"@)
}

/// `doc` with the nodes under `input` > `keyboard` > `xkb` (each made where
/// missing) replaced by `leaf` of them.
pub open spec fn xkb_edit(
    doc: Seq<KdlNodeModel>,
    leaf: spec_fn(Seq<KdlNodeModel>) -> Seq<KdlNodeModel>,
) -> Seq<KdlNodeModel> {
    edit_child(
        doc,
        "input"@,
        |a: Seq<KdlNodeModel>|
            edit_child(a, "keyboard"@, |b: Seq<KdlNodeModel>| edit_child(b, "xkb"@, leaf)),
    )
}

/// The `layout` value the layouts give: none for no layout, else the
/// layouts joined by commas and escaped.
pub open spec fn layout_setting(layouts: Seq<String>) -> Option<Seq<char>> {
    if layouts.len() == 0 {
        None
    } else {
        Some(kdl_escape(join(string_views(layouts), ","@)))
    }
}

/// A string value in double quotes.
pub open spec fn quoted(v: Seq<char>) -> Seq<char> {
    seq!['"'] + v + seq!['"']
}

/// The text of the `layout` node added where there is none.
pub open spec fn layout_node_source(v: Seq<char>) -> Seq<char> {
    "\n            layout "@ + seq!['"'] + v + seq!['"', '\n']
}

pub open spec fn not_layout(n: KdlNodeModel) -> bool {
    n.name != "layout"@
}

/// Whether the `layout` setting can be written under `xkb`: its entry
/// parses, and so does the node added where there is none.
pub open spec fn layout_leaf_ok(ns: Seq<KdlNodeModel>, value: Option<Seq<char>>) -> bool {
    match value {
        None => true,
        Some(v) => kdl_v1_entry_accepts(quoted(v)) && (has_named(ns, "layout"@) || kdl_node_parsed(
            layout_node_source(v),
        ) is Some),
    }
}

/// The nodes under `xkb` with the `layout` setting written: without a value
/// every `layout` node goes; with one the first `layout` node gets the
/// quoted value as its only entry, or a `layout` node is added.
pub open spec fn layout_leaf(ns: Seq<KdlNodeModel>, value: Option<Seq<char>>) -> Seq<KdlNodeModel> {
    match value {
        None => ns.filter(|n: KdlNodeModel| not_layout(n)),
        Some(v) => if has_named(ns, "layout"@) {
            let i = named_index(ns, "layout"@);
            ns.update(
                i,
                KdlNodeModel { name: ns[i].name, entries: seq![quoted(v)], children: ns[i].children },
            )
        } else {
            ns.push(kdl_node_parsed(layout_node_source(v))->0)
        },
    }
}

pub open spec fn opt_text(v: Option<String>) -> Option<Seq<char>> {
    match v {
        Some(s) => Some(s@),
        None => None,
    }
}

proof fn lemma_first_named_unique(ns: Seq<KdlNodeModel>, name: Seq<char>, i: int)
    requires
        is_first_named(ns, name, i),
    ensures
        named_index(ns, name) == i,
        has_named(ns, name),
{
    assert(ns[i].name == name);
    let k = named_index(ns, name);
    assert(is_first_named(ns, name, k));
    if k < i {
        assert(ns[k].name != name);
    } else if k > i {
        assert(ns[i].name != name);
    }
}

proof fn lemma_first_named_exists(ns: Seq<KdlNodeModel>, name: Seq<char>)
    requires
        has_named(ns, name),
    ensures
        is_first_named(ns, name, named_index(ns, name)),
    decreases ns.len(),
{
    let init = ns.drop_last();
    if has_named(init, name) {
        lemma_first_named_exists(init, name);
        let k = named_index(init, name);
        assert(forall|j: int| 0 <= j < k ==> #[trigger] ns[j] == init[j]);
        assert(is_first_named(ns, name, k));
        lemma_first_named_unique(ns, name, k);
    } else {
        let j = choose|j: int| 0 <= j < ns.len() && #[trigger] ns[j].name == name;
        if j < ns.len() - 1 {
            assert(init[j] == ns[j]);
        }
        let l = ns.len() - 1;
        assert forall|m: int| 0 <= m < l implies #[trigger] ns[m].name != name by {
            assert(init[m] == ns[m]);
        }
        assert(is_first_named(ns, name, l));
        lemma_first_named_unique(ns, name, l);
    }
}

proof fn lemma_ensured_first(ns: Seq<KdlNodeModel>, name: Seq<char>)
    ensures
        has_named(ensured(ns, name), name),
        is_first_named(ensured(ns, name), name, named_index(ensured(ns, name), name)),
{
    let e = ensured(ns, name);
    if has_named(ns, name) {
        lemma_first_named_exists(ns, name);
    } else {
        let l = ns.len() as int;
        assert(e[l].name == name);
        assert forall|m: int| 0 <= m < l implies #[trigger] e[m].name != name by {
            assert(e[m] == ns[m]);
        }
        assert(is_first_named(e, name, l));
        lemma_first_named_unique(e, name, l);
    }
}

/// Editing a child and reading that child's nodes back gives the edit of
/// what was there.
proof fn lemma_child_read_back(
    ns: Seq<KdlNodeModel>,
    name: Seq<char>,
    f: spec_fn(Seq<KdlNodeModel>) -> Seq<KdlNodeModel>,
)
    ensures
        child_nodes(edit_child(ns, name, f), name) == f(child_nodes(ns, name)),
        edit_child(ns, name, f).len() == ensured(ns, name).len(),
        forall|j: int|
            0 <= j < ensured(ns, name).len() && j != named_index(ensured(ns, name), name) ==> #[trigger] edit_child(
                ns,
                name,
                f,
            )[j] == ensured(ns, name)[j],
{
    lemma_ensured_first(ns, name);
    let e = ensured(ns, name);
    let i = named_index(e, name);
    let r = edit_child(ns, name, f);
    assert(r[i].name == name);
    assert forall|j: int| 0 <= j < i implies #[trigger] r[j].name != name by {
        assert(r[j] == e[j]);
    }
    assert(is_first_named(r, name, i));
    lemma_first_named_unique(r, name, i);
    assert(ensured(r, name) == r);
}

/// Removing node `i` and putting `x` back at `i` replaces node `i` by `x`.
proof fn lemma_remove_insert(s: Seq<KdlNodeModel>, i: int, x: KdlNodeModel)
    requires
        0 <= i < s.len(),
    ensures
        s.remove(i).insert(i, x) == s.update(i, x),
{
    assert(s.remove(i).insert(i, x) =~= s.update(i, x));
}

/// Where the first node named `name` sits at `i` after ensuring it, editing
/// its children through a take-out and put-back is `edit_child`.
proof fn lemma_edit_step(
    ns: Seq<KdlNodeModel>,
    name: Seq<char>,
    f: spec_fn(Seq<KdlNodeModel>) -> Seq<KdlNodeModel>,
    e: Seq<KdlNodeModel>,
    i: int,
    edited: Seq<KdlNodeModel>,
)
    requires
        e == ensured(ns, name),
        is_first_named(e, name, i),
        edited == f(children_of(e[i])),
    ensures
        e.remove(i).insert(i, with_children(e[i], edited)) == edit_child(ns, name, f),
        children_of(e[i]) == child_nodes(ns, name),
{
    lemma_first_named_unique(e, name, i);
    lemma_remove_insert(e, i, with_children(e[i], edited));
}

/// The index of the first node named `name`, if there is one.
fn find_named(d: &kdl::KdlDocument, name: &str) -> (r: Option<usize>)
    ensures
        match r {
            Some(i) => is_first_named(kdl_doc_model(*d), name@, i as int),
            None => !has_named(kdl_doc_model(*d), name@),
        },
{
    let n: usize = kdl_len(d);
    let mut i: usize = 0;
    while i < n
        invariant
            n == kdl_doc_model(*d).len(),
            i <= n,
            forall|j: int| 0 <= j < i ==> #[trigger] kdl_doc_model(*d)[j].name != name@,
        decreases n - i,
    {
        let s: String = kdl_name_at(d, i);
        if text_eq(s.as_str(), name) {
            return Some(i);
        }
        i = i + 1;
    }
    None
}

/// Makes sure the document has a node named `name` (adding one at the end
/// where it has none); the index of the first such node.
fn ensure_named(d: &mut kdl::KdlDocument, name: &str) -> (i: usize)
    ensures
        kdl_doc_model(*final(d)) == ensured(kdl_doc_model(*old(d)), name@),
        is_first_named(kdl_doc_model(*final(d)), name@, i as int),
{
    match find_named(d, name) {
        Some(i) => {
            proof {
                lemma_first_named_unique(kdl_doc_model(*d), name@, i as int);
            }
            i
        },
        None => {
            let ghost before = kdl_doc_model(*d);
            let len: usize = kdl_len(d);
            let node = kdl_new_node(name);
            kdl_insert_node(d, len, node);
            proof {
                let after = kdl_doc_model(*d);
                assert(after =~= ensured(before, name@));
                assert forall|m: int| 0 <= m < len implies #[trigger] after[m].name != name@ by {
                    assert(after[m] == before[m]);
                }
            }
            len
        },
    }
}

proof fn lemma_filter_step(s: Seq<KdlNodeModel>, k: int)
    requires
        0 <= k < s.len(),
    ensures
        s.take(k + 1).filter(|n: KdlNodeModel| not_layout(n)) == if not_layout(s[k]) {
            s.take(k).filter(|n: KdlNodeModel| not_layout(n)).push(s[k])
        } else {
            s.take(k).filter(|n: KdlNodeModel| not_layout(n))
        },
{
    let f = |n: KdlNodeModel| not_layout(n);
    assert(s.take(k + 1) =~= s.take(k) + seq![s[k]]);
    Seq::filter_distributes_over_add(s.take(k), seq![s[k]], f);
    reveal_with_fuel(Seq::filter, 2);
    if not_layout(s[k]) {
        assert(seq![s[k]].filter(f) =~= seq![s[k]]);
    } else {
        assert(seq![s[k]].filter(f) =~= Seq::<KdlNodeModel>::empty());
    }
    assert(s.take(k).filter(f) + Seq::<KdlNodeModel>::empty() =~= s.take(k).filter(f));
}

/// Removes every node named `layout`, keeping the others in order.
fn remove_layout_nodes(c: &mut kdl::KdlDocument)
    ensures
        kdl_doc_model(*final(c)) == kdl_doc_model(*old(c)).filter(|n: KdlNodeModel| not_layout(n)),
{
    let ghost s = kdl_doc_model(*c);
    let ghost mut k: int = 0;
    let mut i: usize = 0;
    proof {
        assert(s.take(0) =~= Seq::<KdlNodeModel>::empty());
        assert(s.take(0).filter(|n: KdlNodeModel| not_layout(n)) =~= Seq::<KdlNodeModel>::empty());
        assert(s.skip(0) =~= s);
    }
    while i < kdl_len(c)
        invariant
            0 <= k <= s.len(),
            i == s.take(k).filter(|n: KdlNodeModel| not_layout(n)).len(),
            kdl_doc_model(*c) == s.take(k).filter(|n: KdlNodeModel| not_layout(n)) + s.skip(k),
        decreases s.len() - k,
    {
        let ghost kept = s.take(k).filter(|n: KdlNodeModel| not_layout(n));
        proof {
            assert(k < s.len());
            assert(kdl_doc_model(*c)[i as int] == s[k]);
            lemma_filter_step(s, k);
        }
        let name: String = kdl_name_at(c, i);
        if text_eq(name.as_str(), "layout") {
            let _dropped = kdl_remove_node(c, i);
            proof {
                assert(kdl_doc_model(*c) =~= kept + s.skip(k + 1));
            }
        } else {
            proof {
                assert(kept.push(s[k]) + s.skip(k + 1) =~= kept + s.skip(k));
            }
            i = i + 1;
        }
        proof {
            k = k + 1;
        }
    }
    proof {
        assert(s.skip(k).len() == 0);
        assert(s.take(k) =~= s);
        assert(kdl_doc_model(*c) =~= s.filter(|n: KdlNodeModel| not_layout(n)));
    }
}

/// Writes the `layout` setting into the nodes under `xkb`; false, leaving
/// them as they are, where its entry or node does not parse.
fn edit_layout_leaf(c: &mut kdl::KdlDocument, value: &Option<String>) -> (ok: bool)
    ensures
        ok == layout_leaf_ok(kdl_doc_model(*old(c)), opt_text(*value)),
        ok ==> kdl_doc_model(*final(c)) == layout_leaf(kdl_doc_model(*old(c)), opt_text(*value)),
        !ok ==> kdl_doc_model(*final(c)) == kdl_doc_model(*old(c)),
{
    let ghost before = kdl_doc_model(*c);
    match value {
        None => {
            remove_layout_nodes(c);
            true
        },
        Some(v) => {
            let entry_text: String = layout_entry_text(v.as_str());
            let entry = match kdl_entry_parse_v1(entry_text.as_str()) {
                Some(e) => e,
                None => {
                    return false;
                },
            };
            match find_named(c, "layout") {
                Some(i) => {
                    proof {
                        lemma_first_named_unique(before, "layout"@, i as int);
                    }
                    let mut n = kdl_remove_node(c, i);
                    kdl_set_entry(&mut n, entry);
                    kdl_insert_node(c, i, n);
                    proof {
                        lemma_remove_insert(before, i as int, kdl_node_model(n));
                    }
                    true
                },
                None => {
                    let node_text: String = layout_node_text(v.as_str());
                    match kdl_node_parse(node_text.as_str()) {
                        Some(n) => {
                            let len: usize = kdl_len(c);
                            kdl_insert_node(c, len, n);
                            proof {
                                assert(kdl_doc_model(*c) =~= before.push(kdl_node_model(n)));
                            }
                            true
                        },
                        None => false,
                    }
                },
            }
        },
    }
}

/// Sets niri's keyboard layouts in its configuration document: under
/// `input` > `keyboard` > `xkb` (each made where missing), the `layout`
/// node gets the layouts joined by commas, or every `layout` node goes when
/// there is no layout. Nothing else changes. False where the `layout` entry
/// or node does not parse; the path is then only made.
pub fn set_niri_layouts(doc: &mut kdl::KdlDocument, layouts: &Vec<String>) -> (ok: bool)
    ensures
        ok == layout_leaf_ok(xkb_nodes(kdl_doc_model(*old(doc))), layout_setting(layouts@)),
        ok ==> kdl_doc_model(*final(doc)) == xkb_edit(
            kdl_doc_model(*old(doc)),
            |ns: Seq<KdlNodeModel>| layout_leaf(ns, layout_setting(layouts@)),
        ),
        !ok ==> kdl_doc_model(*final(doc)) == xkb_edit(
            kdl_doc_model(*old(doc)),
            |ns: Seq<KdlNodeModel>| ns,
        ),
{
    let value: Option<String> = niri_layout_value(layouts);
    let ghost setting = layout_setting(layouts@);
    assert(opt_text(value) == setting);
    let ghost d0 = kdl_doc_model(*doc);

    let i1: usize = ensure_named(doc, "input");
    let ghost e1 = kdl_doc_model(*doc);
    let mut input = kdl_remove_node(doc, i1);
    let mut a = kdl_take_children(&mut input);
    let ghost a0 = kdl_doc_model(a);

    let i2: usize = ensure_named(&mut a, "keyboard");
    let ghost e2 = kdl_doc_model(a);
    let mut kb = kdl_remove_node(&mut a, i2);
    let mut b = kdl_take_children(&mut kb);
    let ghost b0 = kdl_doc_model(b);

    let i3: usize = ensure_named(&mut b, "xkb");
    let ghost e3 = kdl_doc_model(b);
    let mut xkb = kdl_remove_node(&mut b, i3);
    let mut c = kdl_take_children(&mut xkb);
    let ghost c0 = kdl_doc_model(c);

    let ok = edit_layout_leaf(&mut c, &value);
    let ghost leaf: spec_fn(Seq<KdlNodeModel>) -> Seq<KdlNodeModel> = if ok {
        |ns: Seq<KdlNodeModel>| layout_leaf(ns, setting)
    } else {
        |ns: Seq<KdlNodeModel>| ns
    };
    assert(kdl_doc_model(c) == leaf(c0));

    kdl_set_children(&mut xkb, c);
    kdl_insert_node(&mut b, i3, xkb);
    proof {
        lemma_edit_step(b0, "xkb"@, leaf, e3, i3 as int, leaf(c0));
    }
    kdl_set_children(&mut kb, b);
    kdl_insert_node(&mut a, i2, kb);
    let ghost g = |bb: Seq<KdlNodeModel>| edit_child(bb, "xkb"@, leaf);
    proof {
        lemma_edit_step(a0, "keyboard"@, g, e2, i2 as int, g(b0));
    }
    kdl_set_children(&mut input, a);
    kdl_insert_node(doc, i1, input);
    let ghost h = |aa: Seq<KdlNodeModel>| edit_child(aa, "keyboard"@, g);
    proof {
        lemma_edit_step(d0, "input"@, h, e1, i1 as int, h(a0));
        assert(kdl_doc_model(*doc) == xkb_edit(d0, leaf));
        assert(c0 == xkb_nodes(d0));
        if ok {
            assert(leaf =~= (|ns: Seq<KdlNodeModel>| layout_leaf(ns, layout_setting(layouts@))));
        } else {
            assert(leaf =~= (|ns: Seq<KdlNodeModel>| ns));
        }
    }
    ok
}

/// What becomes of niri's configuration text when the layouts are set in it.
pub enum NiriUpdate {
    /// The text does not parse as KDL v1: it is left untouched.
    NotKdl,
    /// The `layout` entry or node for these layouts does not parse.
    NoEdit,
    /// The edited document prints as the same text: nothing to write.
    Unchanged,
    /// The edited document's text does not parse again: nothing is written.
    Refused,
    /// The text to write in place of the old one.
    Write(String),
}

/// What the edited document's text gives: unchanged, refused (it does not
/// parse again), or written.
pub open spec fn update_for(raw: Seq<char>, printed: Seq<char>, r: NiriUpdate) -> bool {
    match spec_niri_write(raw, printed) {
        NiriWrite::Unchanged => r is Unchanged,
        NiriWrite::Refused => r is Refused,
        NiriWrite::Write => r matches NiriUpdate::Write(t) && t@ == printed,
    }
}

/// Sets the layouts in niri's configuration text: parses it as KDL v1,
/// edits the document as `set_niri_layouts` does, prints it, and says
/// whether the new text is written (only where it differs and parses
/// again).
pub fn sync_niri_text(raw: &str, layouts: &Vec<String>) -> (r: NiriUpdate)
    ensures
        !kdl_v1_accepts(raw@) ==> r is NotKdl,
        kdl_v1_accepts(raw@) ==> {
            let doc0 = kdl_v1_document(raw@)->0;
            let setting = layout_setting(layouts@);
            if !layout_leaf_ok(xkb_nodes(doc0), setting) {
                r is NoEdit
            } else {
                exists|d: kdl::KdlDocument|
                    #[trigger] kdl_doc_model(d) == xkb_edit(
                        doc0,
                        |ns: Seq<KdlNodeModel>| layout_leaf(ns, setting),
                    ) && update_for(raw@, kdl_printed(d), r)
            }
        },
{
    let mut doc = match kdl_parse_v1(raw) {
        Some(d) => d,
        None => {
            return NiriUpdate::NotKdl;
        },
    };
    if !set_niri_layouts(&mut doc, layouts) {
        return NiriUpdate::NoEdit;
    }
    let new_text: String = kdl_to_string(&doc);
    let r = match niri_write_decision(raw, new_text.as_str()) {
        NiriWrite::Unchanged => NiriUpdate::Unchanged,
        NiriWrite::Refused => NiriUpdate::Refused,
        NiriWrite::Write => NiriUpdate::Write(new_text),
    };
    assert(update_for(raw@, kdl_printed(doc), r));
    r
}

/// Setting the layouts and reading the nodes under `input` > `keyboard` >
/// `xkb` back gives the `layout` setting written into what was there; the
/// other nodes of the document stay, in their order.
pub proof fn law_layouts_read_back(doc: Seq<KdlNodeModel>, layouts: Seq<String>)
    ensures
        ({
            let leaf = |ns: Seq<KdlNodeModel>| layout_leaf(ns, layout_setting(layouts));
            let edited = xkb_edit(doc, leaf);
            let e = ensured(doc, "input"@);
            &&& xkb_nodes(edited) == layout_leaf(xkb_nodes(doc), layout_setting(layouts))
            &&& edited.len() == e.len()
            &&& forall|j: int|
                0 <= j < e.len() && j != named_index(e, "input"@) ==> #[trigger] edited[j] == e[j]
        }),
{
    let leaf = |ns: Seq<KdlNodeModel>| layout_leaf(ns, layout_setting(layouts));
    let g = |b: Seq<KdlNodeModel>| edit_child(b, "xkb"@, leaf);
    let h = |a: Seq<KdlNodeModel>| edit_child(a, "keyboard"@, g);
    lemma_child_read_back(doc, "input"@, h);
    let a = child_nodes(doc, "input"@);
    lemma_child_read_back(a, "keyboard"@, g);
    let b = child_nodes(a, "keyboard"@);
    lemma_child_read_back(b, "xkb"@, leaf);
}

/// With no layout, no `layout` node is left under `xkb`; with layouts,
/// where `xkb` had a `layout` node, its first one holds exactly the quoted
/// value.
pub proof fn law_layout_node_written(nodes: Seq<KdlNodeModel>, layouts: Seq<String>)
    ensures
        layouts.len() == 0 ==> !has_named(layout_leaf(nodes, layout_setting(layouts)), "layout"@),
        layouts.len() > 0 && has_named(nodes, "layout"@) ==> ({
            let r = layout_leaf(nodes, layout_setting(layouts));
            &&& has_named(r, "layout"@)
            &&& r[named_index(r, "layout"@)].entries == seq![
                quoted(kdl_escape(join(string_views(layouts), ","@))),
            ]
        }),
{
    let setting = layout_setting(layouts);
    if layouts.len() == 0 {
        let r = layout_leaf(nodes, setting);
        let f = |n: KdlNodeModel| not_layout(n);
        assert(r == nodes.filter(f));
        if has_named(r, "layout"@) {
            let j = choose|j: int| 0 <= j < r.len() && #[trigger] r[j].name == "layout"@;
            assert(f(r[j])) by {
                nodes.filter_lemma(f);
            }
        }
    } else if has_named(nodes, "layout"@) {
        lemma_first_named_exists(nodes, "layout"@);
        let i = named_index(nodes, "layout"@);
        let r = layout_leaf(nodes, setting);
        assert(r[i].name == "layout"@);
        assert forall|j: int| 0 <= j < i implies #[trigger] r[j].name != "layout"@ by {
            assert(r[j] == nodes[j]);
        }
        lemma_first_named_unique(r, "layout"@, i);
    }
}

} // verus!
