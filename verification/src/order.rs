//! Orderings on text and nodes, and a stable insertion sort of node lists.

use vstd::prelude::*;
use crate::node::{Node, NodeV};
use crate::store::nodes_view;

verus! {

/// Lexicographic order by code point (the byte order of UTF-8 text).
pub open spec fn text_lt(a: Seq<char>, b: Seq<char>) -> bool
    decreases a.len(),
{
    if a.len() == 0 {
        b.len() > 0
    } else if b.len() == 0 {
        false
    } else if (a[0] as u32) < (b[0] as u32) {
        true
    } else if (a[0] as u32) > (b[0] as u32) {
        false
    } else {
        text_lt(a.drop_first(), b.drop_first())
    }
}

pub fn text_less(a: &str, b: &str) -> (r: bool)
    ensures
        r == text_lt(a@, b@),
{
    let n = a.unicode_len();
    let m = b.unicode_len();
    let mut i: usize = 0;
    assert(a@.skip(0) =~= a@);
    assert(b@.skip(0) =~= b@);
    while i < n && i < m
        invariant
            n == a@.len(),
            m == b@.len(),
            i <= n,
            i <= m,
            text_lt(a@, b@) == text_lt(a@.skip(i as int), b@.skip(i as int)),
        decreases n - i,
    {
        let x = a.get_char(i);
        let y = b.get_char(i);
        assert(a@.skip(i as int)[0] == x);
        assert(b@.skip(i as int)[0] == y);
        if (x as u32) < (y as u32) {
            return true;
        }
        if (x as u32) > (y as u32) {
            return false;
        }
        assert(a@.skip(i as int).drop_first() =~= a@.skip(i + 1));
        assert(b@.skip(i as int).drop_first() =~= b@.skip(i + 1));
        i = i + 1;
    }
    i == n && i < m
}

/// `None < Some(_)`, then text order.
pub open spec fn opt_text_lt(a: Option<Seq<char>>, b: Option<Seq<char>>) -> bool {
    match (a, b) {
        (None, Some(_)) => true,
        (Some(x), Some(y)) => text_lt(x, y),
        _ => false,
    }
}

/// Order by (parent when `by_parent`, position, id).
pub open spec fn node_lt(by_parent: bool, a: NodeV, b: NodeV) -> bool {
    if by_parent && opt_text_lt(a.parent, b.parent) {
        true
    } else if by_parent && opt_text_lt(b.parent, a.parent) {
        false
    } else if a.position < b.position {
        true
    } else if a.position > b.position {
        false
    } else {
        text_lt(a.id, b.id)
    }
}

pub fn opt_text_less(a: &Option<crate::id::NodeId>, b: &Option<crate::id::NodeId>) -> (r: bool)
    ensures
        r == opt_text_lt(crate::node::opt_id_view(*a), crate::node::opt_id_view(*b)),
{
    match (a, b) {
        (None, Some(_)) => true,
        (Some(x), Some(y)) => text_less(x.as_str(), y.as_str()),
        _ => false,
    }
}

pub fn node_less(by_parent: bool, a: &Node, b: &Node) -> (r: bool)
    ensures
        r == node_lt(by_parent, a@, b@),
{
    if by_parent && opt_text_less(&a.parent, &b.parent) {
        true
    } else if by_parent && opt_text_less(&b.parent, &a.parent) {
        false
    } else if a.position < b.position {
        true
    } else if a.position > b.position {
        false
    } else {
        text_less(a.id.as_str(), b.id.as_str())
    }
}

/// Insert `x` after every element it is not less than (keeps ties in order).
pub open spec fn insert_sorted(by_parent: bool, s: Seq<NodeV>, x: NodeV) -> Seq<NodeV>
    decreases s.len(),
{
    if s.len() == 0 {
        seq![x]
    } else if node_lt(by_parent, x, s[0]) {
        seq![x] + s
    } else {
        seq![s[0]] + insert_sorted(by_parent, s.drop_first(), x)
    }
}

/// Stable insertion sort by `node_lt`.
pub open spec fn sort_nodes(by_parent: bool, s: Seq<NodeV>) -> Seq<NodeV>
    decreases s.len(),
{
    if s.len() == 0 {
        Seq::empty()
    } else {
        insert_sorted(by_parent, sort_nodes(by_parent, s.drop_last()), s.last())
    }
}

pub open spec fn insert_point(by_parent: bool, s: Seq<NodeV>, x: NodeV) -> int
    decreases s.len(),
{
    if s.len() == 0 {
        0
    } else if node_lt(by_parent, x, s[0]) {
        0
    } else {
        1 + insert_point(by_parent, s.drop_first(), x)
    }
}

pub proof fn lemma_insert_point(by_parent: bool, s: Seq<NodeV>, x: NodeV)
    ensures
        0 <= insert_point(by_parent, s, x) <= s.len(),
        insert_sorted(by_parent, s, x) == s.insert(insert_point(by_parent, s, x), x),
        forall|j: int| 0 <= j < insert_point(by_parent, s, x) ==> !node_lt(by_parent, x, #[trigger] s[j]),
        insert_point(by_parent, s, x) < s.len() ==> node_lt(by_parent, x, s[insert_point(by_parent, s, x)]),
    decreases s.len(),
{
    if s.len() > 0 && !node_lt(by_parent, x, s[0]) {
        lemma_insert_point(by_parent, s.drop_first(), x);
        let p = insert_point(by_parent, s.drop_first(), x);
        assert(seq![s[0]] + s.drop_first().insert(p, x) =~= s.insert(p + 1, x));
        assert forall|j: int| 1 <= j < p + 1 implies !node_lt(by_parent, x, #[trigger] s[j]) by {
            assert(s[j] == s.drop_first()[j - 1]);
        }
    } else if s.len() > 0 {
        assert(seq![x] + s =~= s.insert(0, x));
    } else {
        assert(seq![x] =~= s.insert(0, x));
    }
}

/// The nodes stably sorted by (parent when `by_parent`, position, id).
pub fn sorted_nodes(by_parent: bool, v: Vec<Node>) -> (r: Vec<Node>)
    ensures
        nodes_view(r@) == sort_nodes(by_parent, nodes_view(v@)),
{
    let mut out: Vec<Node> = Vec::new();
    let ghost all = nodes_view(v@);
    let n = v.len();
    let mut k: usize = 0;
    while k < n
        invariant
            k <= n,
            n == v@.len(),
            all == nodes_view(v@),
            nodes_view(out@) == sort_nodes(by_parent, all.take(k as int)),
        decreases n - k,
    {
        let x = v[k].clone();
        proof {
            assert(all[k as int] == x@);
            assert(all.take(k + 1).drop_last() =~= all.take(k as int));
            lemma_insert_point(by_parent, nodes_view(out@), x@);
        }
        let mut p: usize = 0;
        while p < out.len() && !node_less(by_parent, &x, &out[p])
            invariant
                p <= out@.len(),
                forall|j: int| 0 <= j < p ==> !node_lt(by_parent, x@, #[trigger] nodes_view(out@)[j]),
                p <= insert_point(by_parent, nodes_view(out@), x@),
                0 <= insert_point(by_parent, nodes_view(out@), x@) <= out@.len(),
                insert_point(by_parent, nodes_view(out@), x@) < out@.len() ==> node_lt(by_parent, x@, nodes_view(out@)[insert_point(by_parent, nodes_view(out@), x@)]),
            decreases out@.len() - p,
        {
            assert(nodes_view(out@)[p as int] == out@[p as int]@);
            p = p + 1;
        }
        proof {
            if p < out@.len() {
                assert(nodes_view(out@)[p as int] == out@[p as int]@);
            }
            assert(p == insert_point(by_parent, nodes_view(out@), x@));
        }
        let ghost o0 = out@;
        out.insert(p, x);
        proof {
            assert(nodes_view(out@) =~= nodes_view(o0).insert(p as int, x@));
        }
        k = k + 1;
    }
    assert(all.take(n as int) =~= all);
    out
}

} // verus!
