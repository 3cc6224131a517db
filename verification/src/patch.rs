//! Applying a patch to a node.

use vstd::prelude::*;
use crate::attrs::{attrs_entries, attrs_insert, attrs_swap_remove, entry_insert, entry_swap_remove, Entries};
use crate::id::NodeId;
use crate::model::{Patch, PatchV};
use crate::node::{Node, NodeV};
use crate::text::{owned, str_eq};

verus! {

/// One attribute entry of a patch applied to a node: `parent` re-parents
/// (an empty value detaches), an empty value removes the key, anything else
/// is inserted.
pub open spec fn apply_attr(n: NodeV, k: Seq<char>, v: Seq<char>) -> NodeV {
    if k == "parent"@ {
        NodeV { parent: if v.len() == 0 { None } else { Some(v) }, ..n }
    } else if v.len() == 0 {
        NodeV { attributes: entry_swap_remove(n.attributes, k), ..n }
    } else {
        NodeV { attributes: entry_insert(n.attributes, k, v), ..n }
    }
}

pub open spec fn apply_attrs(n: NodeV, es: Entries) -> NodeV
    decreases es.len(),
{
    if es.len() == 0 {
        n
    } else {
        let m = apply_attrs(n, es.drop_last());
        apply_attr(m, es.last().0, es.last().1)
    }
}

/// The title hint stored in `semantic_type` when a patch carries a title.
pub open spec fn titled_text() -> Seq<char> {
    "titled"@
}

/// A patch applied to a node, field by field in a fixed order: content,
/// kind, position, title (fills empty content, tags the node as titled),
/// semantic type, then the attribute entries in order.
pub open spec fn patch_node(n: NodeV, p: PatchV) -> NodeV {
    apply_attrs(patch_fields(n, p), p.attributes)
}

/// The field-by-field part of a patch, before its attribute entries.
pub open spec fn patch_fields(n: NodeV, p: PatchV) -> NodeV {
    let n1 = match p.content {
        Some(c) => NodeV { content: c, ..n },
        None => n,
    };
    let n2 = match p.kind {
        Some(k) => NodeV { kind: k, ..n1 },
        None => n1,
    };
    let n3 = match p.position {
        Some(pos) => NodeV { position: pos, ..n2 },
        None => n2,
    };
    let n4 = match p.title {
        Some(t) => NodeV {
            content: if n3.content.len() == 0 { t } else { n3.content },
            semantic_type: Some(titled_text()),
            ..n3
        },
        None => n3,
    };
    let n5 = match p.semantic_type {
        Some(st) => NodeV { semantic_type: Some(st), ..n4 },
        None => n4,
    };
    n5
}

/// Apply `patch` to `node` in place.
pub fn apply_patch_to_node(node: &mut Node, patch: &Patch)
    ensures
        final(node)@ == patch_node(old(node)@, patch@),
{
    if let Some(c) = &patch.content {
        node.content = c.clone();
    }
    if let Some(k) = patch.kind {
        node.kind = k;
    }
    if let Some(p) = patch.position {
        node.position = p;
    }
    if let Some(t) = &patch.title {
        if node.content.as_str().unicode_len() == 0 {
            node.content = t.clone();
        }
        node.semantic_type = Some(owned("titled"));
    }
    if let Some(st) = &patch.semantic_type {
        node.semantic_type = Some(st.clone());
    }
    let ghost n5 = node@;
    let entries = attrs_entries(&patch.attributes);
    let mut i: usize = 0;
    while i < entries.len()
        invariant
            i <= entries@.len(),
            entries.deep_view() == patch@.attributes,
            node@ == apply_attrs(n5, patch@.attributes.take(i as int)),
        decreases entries@.len() - i,
    {
        let k = &entries[i].0;
        let v = &entries[i].1;
        assert(patch@.attributes.take(i + 1).drop_last() =~= patch@.attributes.take(i as int));
        assert(patch@.attributes[i as int] == (k@, v@));
        if str_eq(k.as_str(), "parent") {
            if v.as_str().unicode_len() == 0 {
                node.parent = None;
            } else {
                node.parent = Some(NodeId::from_validated(v.as_str()));
            }
        } else if v.as_str().unicode_len() == 0 {
            let _ = attrs_swap_remove(&mut node.attributes, k.as_str());
        } else {
            attrs_insert(&mut node.attributes, k.clone(), v.clone());
        }
        i = i + 1;
    }
    assert(patch@.attributes.take(entries@.len() as int) =~= patch@.attributes);
}

} // verus!
