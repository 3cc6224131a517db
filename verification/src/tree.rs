//! Reading a flat node list as a tree, shared by the renderers: children in
//! (position, id) order, the top node, trimmed labels and per-node relations.

use vstd::prelude::*;
use crate::model::{relation_kind_text, Relation, RelationKind, RelationV};
use crate::node::{Node, NodeV};
use crate::order::{sort_nodes, sorted_nodes};
use crate::store::{clone_nodes, nodes_view};
use crate::text::{is_ws, is_whitespace, owned};

verus! {

/// `s` without its leading whitespace.
pub open spec fn trim_start(s: Seq<char>) -> Seq<char>
    decreases s.len(),
{
    if s.len() > 0 && is_ws(s[0]) { trim_start(s.drop_first()) } else { s }
}

/// `s` without its trailing whitespace.
pub open spec fn trim_end(s: Seq<char>) -> Seq<char>
    decreases s.len(),
{
    if s.len() > 0 && is_ws(s.last()) { trim_end(s.drop_last()) } else { s }
}

/// `str::trim`.
pub open spec fn trim(s: Seq<char>) -> Seq<char> {
    trim_end(trim_start(s))
}

pub proof fn lemma_trim_start(s: Seq<char>, i: int)
    requires
        0 <= i <= s.len(),
        forall|j: int| 0 <= j < i ==> is_ws(#[trigger] s[j]),
        i == s.len() || !is_ws(s[i]),
    ensures
        trim_start(s) == s.skip(i),
    decreases i,
{
    if i > 0 {
        assert forall|j: int| 0 <= j < i - 1 implies is_ws(#[trigger] s.drop_first()[j]) by {
            assert(s.drop_first()[j] == s[j + 1]);
        }
        if i - 1 < s.drop_first().len() {
            assert(s.drop_first()[i - 1] == s[i]);
        }
        lemma_trim_start(s.drop_first(), i - 1);
        assert(s.drop_first().skip(i - 1) =~= s.skip(i));
    } else {
        assert(s.skip(0) =~= s);
    }
}

pub proof fn lemma_trim_end(s: Seq<char>, k: int)
    requires
        0 <= k <= s.len(),
        forall|j: int| k <= j < s.len() ==> is_ws(#[trigger] s[j]),
        k == 0 || !is_ws(s[k - 1]),
    ensures
        trim_end(s) == s.take(k),
    decreases s.len() - k,
{
    if k < s.len() {
        assert forall|j: int| k <= j < s.drop_last().len() implies is_ws(#[trigger] s.drop_last()[j]) by {
            assert(s.drop_last()[j] == s[j]);
        }
        if k > 0 {
            assert(s.drop_last()[k - 1] == s[k - 1]);
        }
        lemma_trim_end(s.drop_last(), k);
        assert(s.drop_last().take(k) =~= s.take(k));
    } else {
        assert(s.take(k) =~= s);
    }
}

/// `s.trim()`.
pub fn trimmed(s: &str) -> (r: String)
    ensures
        r@ == trim(s@),
{
    let n = s.unicode_len();
    let mut i: usize = 0;
    while i < n && is_whitespace(s.get_char(i))
        invariant
            n == s@.len(),
            i <= n,
            forall|j: int| 0 <= j < i ==> is_ws(#[trigger] s@[j]),
        decreases n - i,
    {
        i = i + 1;
    }
    proof {
        lemma_trim_start(s@, i as int);
    }
    let mut k: usize = n;
    while k > i && is_whitespace(s.get_char(k - 1))
        invariant
            n == s@.len(),
            i <= k <= n,
            forall|j: int| k <= j < n ==> is_ws(#[trigger] s@[j]),
        decreases k,
    {
        k = k - 1;
    }
    let ghost t = s@.skip(i as int);
    proof {
        assert forall|j: int| k - i <= j < t.len() implies is_ws(#[trigger] t[j]) by {
            assert(t[j] == s@[j + i]);
        }
        if k > i {
            assert(t[k - i - 1] == s@[k - 1]);
        }
        lemma_trim_end(t, k - i);
        assert(t.take(k - i) =~= s@.subrange(i as int, k as int));
    }
    owned(s.substring_char(i, k))
}

pub open spec fn node_has_id(id: Seq<char>) -> spec_fn(NodeV) -> bool {
    |n: NodeV| n.id == id
}

/// The nodes whose parent is `parent`, in (position, id) order, ties in list
/// order.
pub open spec fn children_spec(nodes: Seq<NodeV>, parent: Option<Seq<char>>) -> Seq<NodeV> {
    sort_nodes(false, nodes.filter(|n: NodeV| n.parent == parent))
}

/// The node a renderer starts from: the top-level node with the document's
/// root id, else the first top-level node.
pub open spec fn top_spec(nodes: Seq<NodeV>, root: Seq<char>) -> Option<NodeV> {
    let tops = children_spec(nodes, None);
    let p = crate::store::first_pos(tops, node_has_id(root));
    if p >= 0 {
        Some(tops[p])
    } else if tops.len() > 0 {
        Some(tops[0])
    } else {
        None
    }
}

/// The children of `parent` (`None`: the top level), in (position, id) order.
pub fn children_of(nodes: &Vec<Node>, parent: Option<&str>) -> (r: Vec<Node>)
    ensures
        nodes_view(r@) == children_spec(nodes_view(nodes@), match parent { Some(p) => Some(p@), None => None }),
{
    let ghost pv: Option<Seq<char>> = match parent { Some(p) => Some(p@), None => None };
    let ghost all = nodes_view(nodes@);
    let mut picked: Vec<Node> = Vec::new();
    let mut i: usize = 0;
    while i < nodes.len()
        invariant
            i <= nodes@.len(),
            all == nodes_view(nodes@),
            pv == match parent { Some(p) => Some(p@), None => None::<Seq<char>> },
            nodes_view(picked@) == all.take(i as int).filter(|n: NodeV| n.parent == pv),
        decreases nodes@.len() - i,
    {
        let n = &nodes[i];
        proof {
            assert(all[i as int] == n@);
            assert(all.take(i + 1).drop_last() =~= all.take(i as int));
            reveal(Seq::filter);
        }
        let keep = match (&n.parent, parent) {
            (Some(a), Some(b)) => crate::text::str_eq(a.as_str(), b),
            (None, None) => true,
            _ => false,
        };
        if keep {
            let ghost p0 = nodes_view(picked@);
            picked.push(n.clone());
            assert(nodes_view(picked@) =~= p0.push(n@));
        }
        i = i + 1;
    }
    assert(all.take(all.len() as int) =~= all);
    sorted_nodes(false, picked)
}

/// The node a renderer starts from (see `top_spec`).
pub fn top_node(nodes: &Vec<Node>, root: &str) -> (r: Option<Node>)
    ensures
        match r { Some(n) => Some(n@), None => None } == top_spec(nodes_view(nodes@), root@),
{
    let tops = children_of(nodes, None);
    let ghost tv = nodes_view(tops@);
    proof {
        crate::store::lemma_first_pos(tv, node_has_id(root@));
    }
    let mut i: usize = 0;
    while i < tops.len()
        invariant
            i <= tops@.len(),
            tv == nodes_view(tops@),
            tv == children_spec(nodes_view(nodes@), None),
            forall|j: int| 0 <= j < i ==> !(node_has_id(root@))(#[trigger] tv[j]),
        decreases tops@.len() - i,
    {
        assert(tv[i as int] == tops@[i as int]@);
        if crate::text::str_eq(tops[i].id.as_str(), root) {
            proof {
                crate::store::lemma_first_pos_at(tv, node_has_id(root@), i as int);
            }
            return Some(tops[i].clone());
        }
        i = i + 1;
    }
    if tops.len() > 0 {
        assert(tv[0] == tops@[0]@);
        Some(tops[0].clone())
    } else {
        None
    }
}

/// One relation as seen from a node: outgoing or not, the kind's name, the
/// other end and its label.
pub struct RelEntryV {
    pub outgoing: bool,
    pub kind: Seq<char>,
    pub other: Seq<char>,
    pub label: Seq<char>,
}

pub struct RelEntry {
    pub outgoing: bool,
    pub kind: String,
    pub other: String,
    pub label: String,
}

impl View for RelEntry {
    type V = RelEntryV;

    open spec fn view(&self) -> RelEntryV {
        RelEntryV { outgoing: self.outgoing, kind: self.kind@, other: self.other@, label: self.label@ }
    }
}

/// The name a relation's kind is shown by: the custom name of a custom
/// relation that has one, else the kind's own name.
pub open spec fn shown_kind(r: RelationV) -> Seq<char> {
    if r.kind == RelationKind::Custom && r.custom_kind is Some {
        r.custom_kind->0
    } else {
        relation_kind_text(r.kind)
    }
}

/// The label of node `id`: the trimmed content of the first node with that
/// id when not empty, else the id.
pub open spec fn label_of(all: Seq<NodeV>, id: Seq<char>) -> Seq<char> {
    let p = crate::store::first_pos(all, node_has_id(id));
    if p >= 0 && trim(all[p].content).len() > 0 { trim(all[p].content) } else { id }
}

/// How `r` looks from node `id`, if it touches it (as source first).
pub open spec fn rel_entry(r: RelationV, all: Seq<NodeV>, id: Seq<char>) -> Option<RelEntryV> {
    if r.source == id {
        Some(RelEntryV { outgoing: true, kind: shown_kind(r), other: r.target, label: label_of(all, r.target) })
    } else if r.target == id {
        Some(RelEntryV { outgoing: false, kind: shown_kind(r), other: r.source, label: label_of(all, r.source) })
    } else {
        None
    }
}

/// The relations touching node `id`, in relation order.
pub open spec fn rel_entries(rels: Seq<RelationV>, all: Seq<NodeV>, id: Seq<char>) -> Seq<RelEntryV>
    decreases rels.len(),
{
    if rels.len() == 0 {
        Seq::empty()
    } else {
        let rest = rel_entries(rels.drop_last(), all, id);
        match rel_entry(rels.last(), all, id) {
            Some(e) => rest.push(e),
            None => rest,
        }
    }
}

pub open spec fn entries_view(v: Seq<RelEntry>) -> Seq<RelEntryV> {
    v.map_values(|e: RelEntry| e@)
}

fn label_for(all: &Vec<Node>, id: &str) -> (r: String)
    ensures
        r@ == label_of(nodes_view(all@), id@),
{
    let ghost av = nodes_view(all@);
    proof {
        crate::store::lemma_first_pos(av, node_has_id(id@));
    }
    let mut i: usize = 0;
    while i < all.len()
        invariant
            i <= all@.len(),
            av == nodes_view(all@),
            forall|j: int| 0 <= j < i ==> !(node_has_id(id@))(#[trigger] av[j]),
        decreases all@.len() - i,
    {
        assert(av[i as int] == all@[i as int]@);
        if crate::text::str_eq(all[i].id.as_str(), id) {
            proof {
                crate::store::lemma_first_pos_at(av, node_has_id(id@), i as int);
            }
            let t = trimmed(all[i].content.as_str());
            if t.unicode_len() > 0 {
                return t;
            }
            return owned(id);
        }
        i = i + 1;
    }
    owned(id)
}

/// The relations touching node `id` as seen from it.
pub fn relation_entries(rels: &Vec<Relation>, all: &Vec<Node>, id: &str) -> (r: Vec<RelEntry>)
    ensures
        entries_view(r@) == rel_entries(rels@.map_values(|x: Relation| x@), nodes_view(all@), id@),
{
    let ghost rv = rels@.map_values(|x: Relation| x@);
    let mut out: Vec<RelEntry> = Vec::new();
    let mut i: usize = 0;
    while i < rels.len()
        invariant
            i <= rels@.len(),
            rv == rels@.map_values(|x: Relation| x@),
            entries_view(out@) == rel_entries(rv.take(i as int), nodes_view(all@), id@),
        decreases rels@.len() - i,
    {
        let r = &rels[i];
        proof {
            assert(rv[i as int] == r@);
            assert(rv.take(i + 1).drop_last() =~= rv.take(i as int));
        }
        let kind = match (&r.kind, &r.custom_kind) {
            (RelationKind::Custom, Some(c)) => c.clone(),
            _ => owned(r.kind.as_str()),
        };
        let ghost o0 = entries_view(out@);
        if crate::text::str_eq(r.source.as_str(), id) {
            let e = RelEntry { outgoing: true, kind, other: owned(r.target.as_str()), label: label_for(all, r.target.as_str()) };
            out.push(e);
            assert(entries_view(out@) =~= o0.push(rel_entry(r@, nodes_view(all@), id@)->0));
        } else if crate::text::str_eq(r.target.as_str(), id) {
            let e = RelEntry { outgoing: false, kind, other: owned(r.source.as_str()), label: label_for(all, r.source.as_str()) };
            out.push(e);
            assert(entries_view(out@) =~= o0.push(rel_entry(r@, nodes_view(all@), id@)->0));
        }
        i = i + 1;
    }
    assert(rv.take(rv.len() as int) =~= rv);
    out
}

} // verus!
