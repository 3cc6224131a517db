//! Dry runs: what an operation would change, computed on a copy of the
//! document so that the store itself is never touched.

use vstd::prelude::*;
use crate::apply::{handled_spec, next_revision, precheck_spec};
use crate::check::{check_all, CheckError};
use crate::engine::{ApplyContext, ApplyError, ApplyErrorV};
use crate::handler::{builtin_spec, default_slot, slot, HandlerRegistry};
use crate::id::{NodeId, RevisionId};
use crate::model::{Operation, OperationV, Relation, RelationV};
use crate::node::{node_equal, Node, NodeV};
use crate::store::{
    doc_tables, first_pos, lemma_first_pos, lemma_first_pos_at, list_nodes_spec, nodes_view,
    DocTablesV, Store, StoreError,
};
use crate::text::{decimal, decimal_string, lemma_take_push, owned};
use crate::tree::node_has_id;

verus! {

/// One node-level entry of a preview.
#[derive(Debug)]
pub enum NodeDiff {
    /// The node does not exist before the operation and does after.
    Added { node: Node },
    /// The node exists before and not after.
    Removed { node: Node },
    /// The node exists on both sides with different fields.
    Modified { before: Node, after: Node },
    Unchanged,
}

pub enum NodeDiffV {
    Added(NodeV),
    Removed(NodeV),
    Modified(NodeV, NodeV),
    Unchanged,
}

impl View for NodeDiff {
    type V = NodeDiffV;

    open spec fn view(&self) -> NodeDiffV {
        match self {
            NodeDiff::Added { node } => NodeDiffV::Added(node@),
            NodeDiff::Removed { node } => NodeDiffV::Removed(node@),
            NodeDiff::Modified { before, after } => NodeDiffV::Modified(before@, after@),
            NodeDiff::Unchanged => NodeDiffV::Unchanged,
        }
    }
}

/// One relation-level entry of a preview.
#[derive(Debug)]
pub enum RelationDiff {
    Added { relation: Relation },
    Removed { relation: Relation },
}

pub enum RelationDiffV {
    Added(RelationV),
    Removed(RelationV),
}

impl View for RelationDiff {
    type V = RelationDiffV;

    open spec fn view(&self) -> RelationDiffV {
        match self {
            RelationDiff::Added { relation } => RelationDiffV::Added(relation@),
            RelationDiff::Removed { relation } => RelationDiffV::Removed(relation@),
        }
    }
}

/// What one operation would do to a document.
#[derive(Debug)]
pub struct PreviewReport {
    /// The head revision the operation would build on.
    pub current_revision: RevisionId,
    /// The revision the operation would create.
    pub next_revision: RevisionId,
    /// Per-node changes: additions and modifications in the order of the
    /// resulting node list, then removals in the order of the current one.
    pub nodes: Vec<(NodeId, NodeDiff)>,
    /// Per-relation changes, additions first.
    pub relations: Vec<(String, RelationDiff)>,
    /// A one-line count of the changes.
    pub summary: String,
}

pub struct PreviewReportV {
    pub current_revision: Seq<char>,
    pub next_revision: Seq<char>,
    pub nodes: Seq<(Seq<char>, NodeDiffV)>,
    pub relations: Seq<(Seq<char>, RelationDiffV)>,
    pub summary: Seq<char>,
}

pub open spec fn node_diffs_view(v: Seq<(NodeId, NodeDiff)>) -> Seq<(Seq<char>, NodeDiffV)> {
    v.map_values(|p: (NodeId, NodeDiff)| (p.0@, p.1@))
}

pub open spec fn relation_diffs_view(v: Seq<(String, RelationDiff)>) -> Seq<(Seq<char>, RelationDiffV)> {
    v.map_values(|p: (String, RelationDiff)| (p.0@, p.1@))
}

impl View for PreviewReport {
    type V = PreviewReportV;

    open spec fn view(&self) -> PreviewReportV {
        PreviewReportV {
            current_revision: self.current_revision@,
            next_revision: self.next_revision@,
            nodes: node_diffs_view(self.nodes@),
            relations: relation_diffs_view(self.relations@),
            summary: self.summary@,
        }
    }
}

/// The first node with id `id`.
pub open spec fn node_with(nodes: Seq<NodeV>, id: Seq<char>) -> Option<NodeV> {
    let p = first_pos(nodes, node_has_id(id));
    if p < 0 { None } else { Some(nodes[p]) }
}

/// Each node of `after` that is new or differs from its namesake in `before`.
pub open spec fn added_or_modified(before: Seq<NodeV>, after: Seq<NodeV>) -> Seq<(Seq<char>, NodeDiffV)>
    decreases after.len(),
{
    if after.len() == 0 {
        Seq::empty()
    } else {
        let rest = added_or_modified(before, after.drop_last());
        let n = after.last();
        match node_with(before, n.id) {
            None => rest.push((n.id, NodeDiffV::Added(n))),
            Some(b) => if node_equal(b, n) { rest } else { rest.push((n.id, NodeDiffV::Modified(b, n))) },
        }
    }
}

/// Each node of `before` whose id `after` lacks.
pub open spec fn removed_nodes(before: Seq<NodeV>, after: Seq<NodeV>) -> Seq<(Seq<char>, NodeDiffV)>
    decreases before.len(),
{
    if before.len() == 0 {
        Seq::empty()
    } else {
        let rest = removed_nodes(before.drop_last(), after);
        let b = before.last();
        if node_with(after, b.id) is None { rest.push((b.id, NodeDiffV::Removed(b))) } else { rest }
    }
}

pub open spec fn node_diffs_spec(before: Seq<NodeV>, after: Seq<NodeV>) -> Seq<(Seq<char>, NodeDiffV)> {
    added_or_modified(before, after) + removed_nodes(before, after)
}

pub open spec fn relation_has_id(id: Seq<char>) -> spec_fn(RelationV) -> bool {
    |r: RelationV| r.id == id
}

pub open spec fn has_relation_id(rels: Seq<RelationV>, id: Seq<char>) -> bool {
    first_pos(rels, relation_has_id(id)) >= 0
}

/// Each relation of `b` whose id `a` lacks, as an addition when `added`,
/// else as a removal.
pub open spec fn relations_missing(a: Seq<RelationV>, b: Seq<RelationV>, added: bool) -> Seq<(Seq<char>, RelationDiffV)>
    decreases b.len(),
{
    if b.len() == 0 {
        Seq::empty()
    } else {
        let rest = relations_missing(a, b.drop_last(), added);
        let r = b.last();
        if has_relation_id(a, r.id) {
            rest
        } else {
            rest.push((r.id, if added { RelationDiffV::Added(r) } else { RelationDiffV::Removed(r) }))
        }
    }
}

pub open spec fn relation_diffs_spec(before: Seq<RelationV>, after: Seq<RelationV>) -> Seq<(Seq<char>, RelationDiffV)> {
    relations_missing(before, after, true) + relations_missing(after, before, false)
}

/// How many elements of `s` satisfy `f`.
pub open spec fn count_if<T>(s: Seq<T>, f: spec_fn(T) -> bool) -> nat
    decreases s.len(),
{
    if s.len() == 0 {
        0
    } else {
        count_if(s.drop_last(), f) + if f(s.last()) { 1nat } else { 0nat }
    }
}

pub open spec fn summary_spec(nodes: Seq<(Seq<char>, NodeDiffV)>, rels: Seq<(Seq<char>, RelationDiffV)>) -> Seq<char> {
    "preview: +"@ + decimal(count_if(nodes, |p: (Seq<char>, NodeDiffV)| p.1 is Added))
        + " nodes, -"@ + decimal(count_if(nodes, |p: (Seq<char>, NodeDiffV)| p.1 is Removed))
        + " nodes, ~"@ + decimal(count_if(nodes, |p: (Seq<char>, NodeDiffV)| p.1 is Modified))
        + " modified, +"@ + decimal(count_if(rels, |p: (Seq<char>, RelationDiffV)| p.1 is Added))
        + " relations, -"@ + decimal(count_if(rels, |p: (Seq<char>, RelationDiffV)| p.1 is Removed))
        + " relations"@
}

/// The report for the document going from tables `t` to `t1`.
pub open spec fn report_spec(head: Seq<char>, t: DocTablesV, t1: DocTablesV) -> PreviewReportV {
    let nodes = node_diffs_spec(list_nodes_spec(t), list_nodes_spec(t1));
    let rels = relation_diffs_spec(t.relations, t1.relations);
    PreviewReportV {
        current_revision: head,
        next_revision: next_revision(t),
        nodes,
        relations: rels,
        summary: summary_spec(nodes, rels),
    }
}

/// What previewing `op` on document `doc` reports; `None` when a handler a
/// caller registered decides.
pub open spec fn preview_spec(s: Seq<DocTablesV>, doc: Seq<char>, op: OperationV, reg: Seq<(crate::model::OperationType, bool)>) -> Option<Result<PreviewReportV, ApplyErrorV>> {
    match precheck_spec(s, doc, op) {
        Err(e) => Some(Err(e)),
        Ok(head) => {
            let t = doc_tables(s, doc)->0;
            match handled_spec(reg, t, op, next_revision(t)) {
                None => None,
                Some(Err(e)) => Some(Err(e)),
                Some(Ok(t1)) => Some(Ok(report_spec(head, t, t1))),
            }
        },
    }
}

/// The position of the first node with id `id`.
fn node_index(nodes: &Vec<Node>, id: &NodeId) -> (r: Option<usize>)
    ensures
        match r {
            Some(i) => i < nodes@.len() && i as int == first_pos(nodes_view(nodes@), node_has_id(id@)),
            None => first_pos(nodes_view(nodes@), node_has_id(id@)) < 0,
        },
{
    let ghost s = nodes_view(nodes@);
    proof {
        lemma_first_pos(s, node_has_id(id@));
    }
    let mut i: usize = 0;
    while i < nodes.len()
        invariant
            i <= nodes@.len(),
            s == nodes_view(nodes@),
            forall|j: int| 0 <= j < i ==> !node_has_id(id@)(#[trigger] s[j]),
        decreases nodes@.len() - i,
    {
        if nodes[i].id == *id {
            proof {
                lemma_first_pos_at(s, node_has_id(id@), i as int);
            }
            return Some(i);
        }
        i = i + 1;
    }
    None
}

/// The position of the first relation with id `id`.
fn relation_index(rels: &Vec<Relation>, id: &str) -> (r: Option<usize>)
    ensures
        match r {
            Some(i) => i < rels@.len() && i as int == first_pos(rels@.map_values(|x: Relation| x@), relation_has_id(id@)),
            None => first_pos(rels@.map_values(|x: Relation| x@), relation_has_id(id@)) < 0,
        },
{
    let ghost s = rels@.map_values(|x: Relation| x@);
    proof {
        lemma_first_pos(s, relation_has_id(id@));
    }
    let mut i: usize = 0;
    while i < rels.len()
        invariant
            i <= rels@.len(),
            s == rels@.map_values(|x: Relation| x@),
            forall|j: int| 0 <= j < i ==> !relation_has_id(id@)(#[trigger] s[j]),
        decreases rels@.len() - i,
    {
        if crate::text::str_eq(rels[i].id.as_str(), id) {
            proof {
                lemma_first_pos_at(s, relation_has_id(id@), i as int);
            }
            return Some(i);
        }
        i = i + 1;
    }
    None
}

/// The node-level diff from `before` to `after`.
pub fn diff_nodes(before: &Vec<Node>, after: &Vec<Node>) -> (r: Vec<(NodeId, NodeDiff)>)
    ensures
        node_diffs_view(r@) == node_diffs_spec(nodes_view(before@), nodes_view(after@)),
{
    let ghost b = nodes_view(before@);
    let ghost a = nodes_view(after@);
    let mut out: Vec<(NodeId, NodeDiff)> = Vec::new();
    let mut i: usize = 0;
    while i < after.len()
        invariant
            i <= after@.len(),
            a == nodes_view(after@),
            b == nodes_view(before@),
            node_diffs_view(out@) == added_or_modified(b, a.take(i as int)),
        decreases after@.len() - i,
    {
        let ghost prev = out@;
        let n = &after[i];
        proof {
            assert(a.take(i + 1).drop_last() =~= a.take(i as int));
            assert(a.take(i + 1).last() == n@);
        }
        match node_index(before, &n.id) {
            None => {
                out.push((n.id.clone(), NodeDiff::Added { node: n.clone() }));
                assert(node_diffs_view(out@) =~= node_diffs_view(prev).push((n@.id, NodeDiffV::Added(n@))));
            },
            Some(j) => {
                let bn = &before[j];
                assert(b[j as int] == bn@);
                if !bn.same_as(n) {
                    out.push((n.id.clone(), NodeDiff::Modified { before: bn.clone(), after: n.clone() }));
                    assert(node_diffs_view(out@) =~= node_diffs_view(prev).push((n@.id, NodeDiffV::Modified(bn@, n@))));
                }
            },
        }
        i = i + 1;
    }
    assert(a.take(after@.len() as int) =~= a);
    let ghost mid = out@;
    let mut k: usize = 0;
    while k < before.len()
        invariant
            k <= before@.len(),
            a == nodes_view(after@),
            b == nodes_view(before@),
            out@.len() >= mid.len(),
            node_diffs_view(mid) == added_or_modified(b, a),
            node_diffs_view(out@) == node_diffs_view(mid) + removed_nodes(b.take(k as int), a),
        decreases before@.len() - k,
    {
        let ghost prev = out@;
        let bn = &before[k];
        proof {
            assert(b.take(k + 1).drop_last() =~= b.take(k as int));
            assert(b.take(k + 1).last() == bn@);
        }
        if node_index(after, &bn.id).is_none() {
            out.push((bn.id.clone(), NodeDiff::Removed { node: bn.clone() }));
            assert(node_diffs_view(out@) =~= node_diffs_view(prev).push((bn@.id, NodeDiffV::Removed(bn@))));
        }
        k = k + 1;
    }
    assert(b.take(before@.len() as int) =~= b);
    out
}

/// The relation-level diff from `before` to `after`.
pub fn diff_relations(before: &Vec<Relation>, after: &Vec<Relation>) -> (r: Vec<(String, RelationDiff)>)
    ensures
        relation_diffs_view(r@) == relation_diffs_spec(
            before@.map_values(|x: Relation| x@),
            after@.map_values(|x: Relation| x@),
        ),
{
    let ghost b = before@.map_values(|x: Relation| x@);
    let ghost a = after@.map_values(|x: Relation| x@);
    let mut out: Vec<(String, RelationDiff)> = Vec::new();
    let mut i: usize = 0;
    while i < after.len()
        invariant
            i <= after@.len(),
            a == after@.map_values(|x: Relation| x@),
            b == before@.map_values(|x: Relation| x@),
            relation_diffs_view(out@) == relations_missing(b, a.take(i as int), true),
        decreases after@.len() - i,
    {
        let ghost prev = out@;
        let r = &after[i];
        proof {
            assert(a.take(i + 1).drop_last() =~= a.take(i as int));
            assert(a.take(i + 1).last() == r@);
        }
        if relation_index(before, r.id.as_str()).is_none() {
            out.push((r.id.clone(), RelationDiff::Added { relation: r.clone() }));
            assert(relation_diffs_view(out@) =~= relation_diffs_view(prev).push((r@.id, RelationDiffV::Added(r@))));
        }
        i = i + 1;
    }
    assert(a.take(after@.len() as int) =~= a);
    let ghost mid = out@;
    let mut k: usize = 0;
    while k < before.len()
        invariant
            k <= before@.len(),
            a == after@.map_values(|x: Relation| x@),
            b == before@.map_values(|x: Relation| x@),
            relation_diffs_view(mid) == relations_missing(b, a, true),
            relation_diffs_view(out@) == relation_diffs_view(mid) + relations_missing(a, b.take(k as int), false),
        decreases before@.len() - k,
    {
        let ghost prev = out@;
        let r = &before[k];
        proof {
            assert(b.take(k + 1).drop_last() =~= b.take(k as int));
            assert(b.take(k + 1).last() == r@);
        }
        if relation_index(after, r.id.as_str()).is_none() {
            out.push((r.id.clone(), RelationDiff::Removed { relation: r.clone() }));
            assert(relation_diffs_view(out@) =~= relation_diffs_view(prev).push((r@.id, RelationDiffV::Removed(r@))));
        }
        k = k + 1;
    }
    assert(b.take(before@.len() as int) =~= b);
    out
}

/// The number of node entries of each variant: added, removed, modified.
fn count_nodes(v: &Vec<(NodeId, NodeDiff)>) -> (r: (usize, usize, usize))
    ensures
        r.0 == count_if(node_diffs_view(v@), |p: (Seq<char>, NodeDiffV)| p.1 is Added),
        r.1 == count_if(node_diffs_view(v@), |p: (Seq<char>, NodeDiffV)| p.1 is Removed),
        r.2 == count_if(node_diffs_view(v@), |p: (Seq<char>, NodeDiffV)| p.1 is Modified),
{
    let ghost s = node_diffs_view(v@);
    let mut added: usize = 0;
    let mut removed: usize = 0;
    let mut modified: usize = 0;
    let mut i: usize = 0;
    while i < v.len()
        invariant
            i <= v@.len(),
            s == node_diffs_view(v@),
            added == count_if(s.take(i as int), |p: (Seq<char>, NodeDiffV)| p.1 is Added),
            removed == count_if(s.take(i as int), |p: (Seq<char>, NodeDiffV)| p.1 is Removed),
            modified == count_if(s.take(i as int), |p: (Seq<char>, NodeDiffV)| p.1 is Modified),
            added <= i && removed <= i && modified <= i,
        decreases v@.len() - i,
    {
        proof {
            assert(s.take(i + 1).drop_last() =~= s.take(i as int));
            assert(s.take(i + 1).last() == s[i as int]);
            assert(s[i as int].1 == v@[i as int].1@);
        }
        match &v[i].1 {
            NodeDiff::Added { .. } => added = added + 1,
            NodeDiff::Removed { .. } => removed = removed + 1,
            NodeDiff::Modified { .. } => modified = modified + 1,
            NodeDiff::Unchanged => {},
        }
        i = i + 1;
    }
    assert(s.take(v@.len() as int) =~= s);
    (added, removed, modified)
}

/// The number of relation entries of each variant: added, removed.
fn count_relations(v: &Vec<(String, RelationDiff)>) -> (r: (usize, usize))
    ensures
        r.0 == count_if(relation_diffs_view(v@), |p: (Seq<char>, RelationDiffV)| p.1 is Added),
        r.1 == count_if(relation_diffs_view(v@), |p: (Seq<char>, RelationDiffV)| p.1 is Removed),
{
    let ghost s = relation_diffs_view(v@);
    let mut added: usize = 0;
    let mut removed: usize = 0;
    let mut i: usize = 0;
    while i < v.len()
        invariant
            i <= v@.len(),
            s == relation_diffs_view(v@),
            added == count_if(s.take(i as int), |p: (Seq<char>, RelationDiffV)| p.1 is Added),
            removed == count_if(s.take(i as int), |p: (Seq<char>, RelationDiffV)| p.1 is Removed),
            added <= i && removed <= i,
        decreases v@.len() - i,
    {
        proof {
            assert(s.take(i + 1).drop_last() =~= s.take(i as int));
            assert(s.take(i + 1).last() == s[i as int]);
            assert(s[i as int].1 == v@[i as int].1@);
        }
        match &v[i].1 {
            RelationDiff::Added { .. } => added = added + 1,
            RelationDiff::Removed { .. } => removed = removed + 1,
        }
        i = i + 1;
    }
    assert(s.take(v@.len() as int) =~= s);
    (added, removed)
}

/// `preview: +A nodes, -R nodes, ~M modified, +RA relations, -RR relations`.
pub fn build_summary(nodes: &Vec<(NodeId, NodeDiff)>, rels: &Vec<(String, RelationDiff)>) -> (r: String)
    ensures
        r@ == summary_spec(node_diffs_view(nodes@), relation_diffs_view(rels@)),
{
    let (added, removed, modified) = count_nodes(nodes);
    let (rels_added, rels_removed) = count_relations(rels);
    let mut s = owned("preview: +");
    s.append(decimal_string(added as u64).as_str());
    s.append(" nodes, -");
    s.append(decimal_string(removed as u64).as_str());
    s.append(" nodes, ~");
    s.append(decimal_string(modified as u64).as_str());
    s.append(" modified, +");
    s.append(decimal_string(rels_added as u64).as_str());
    s.append(" relations, -");
    s.append(decimal_string(rels_removed as u64).as_str());
    s.append(" relations");
    s
}

/// `r` is what `preview_spec` gives; where a handler a caller registered
/// decides, a report on the current head and the next revision, or an error.
pub open spec fn preview_post(r: Result<PreviewReport, ApplyError>, s: Seq<DocTablesV>, doc: Seq<char>, op: OperationV, reg: Seq<(crate::model::OperationType, bool)>) -> bool {
    match preview_spec(s, doc, op, reg) {
        Some(Ok(rep)) => r matches Ok(x) && x@ == rep,
        Some(Err(e)) => r matches Err(x) && x@ == e,
        None => match r {
            Ok(x) => precheck_spec(s, doc, op) == Ok::<Seq<char>, ApplyErrorV>(x@.current_revision)
                && exists|t1: DocTablesV| #[trigger] report_spec(x@.current_revision, doc_tables(s, doc)->0, t1) == x@,
            Err(_) => true,
        },
    }
}

/// Preview `op` on document `doc_id` with the handlers of `registry`: what
/// it would change, or the error applying it would give. The store is left
/// as it was.
pub fn preview_with_registry(store: &mut Store, doc_id: &str, op: &Operation, registry: &HandlerRegistry) -> (r: Result<PreviewReport, ApplyError>)
    ensures
        final(store)@ == old(store)@,
        preview_post(r, old(store)@, doc_id@, op@, registry@),
{
    let head = match check_all(store, doc_id, op) {
        Ok(h) => h,
        Err(e) => {
            return Err(match e {
                CheckError::Conflict(c) => ApplyError::Conflict(c),
                other => ApplyError::Store(StoreError::Integrity(other.message())),
            });
        },
    };
    let t = match store.tables(doc_id) {
        Some(t) => t,
        None => {
            return Err(ApplyError::MissingPatch);
        },
    };
    let before_nodes = t.list_nodes();
    let before_relations = t.list_relations();
    let next_rev = RevisionId::from_sequence(t.max_revision_seq());
    let mut ctx = ApplyContext { tables: t.clone_tables(), doc_id, new_rev: &next_rev, op };
    let handled = registry.dispatch(&mut ctx);
    let after = ctx.tables;
    if let Err(e) = handled {
        return Err(e);
    }
    let after_nodes = after.list_nodes();
    let after_relations = after.list_relations();
    let nodes = diff_nodes(&before_nodes, &after_nodes);
    let relations = diff_relations(&before_relations, &after_relations);
    let summary = build_summary(&nodes, &relations);
    let report = PreviewReport { current_revision: head, next_revision: next_rev, nodes, relations, summary };
    proof {
        let t1 = after@;
        assert(report@ == report_spec(report@.current_revision, t@, t1));
    }
    Ok(report)
}

/// What previewing `op` with the built-in handlers reports.
pub open spec fn preview_builtin_spec(s: Seq<DocTablesV>, doc: Seq<char>, op: OperationV) -> Result<PreviewReportV, ApplyErrorV> {
    match precheck_spec(s, doc, op) {
        Err(e) => Err(e),
        Ok(head) => {
            let t = doc_tables(s, doc)->0;
            match builtin_spec(op.op_type, t, op, next_revision(t)) {
                Err(e) => Err(e),
                Ok(t1) => Ok(report_spec(head, t, t1)),
            }
        },
    }
}

/// Preview `op` with the built-in handlers.
pub fn preview_operation(store: &mut Store, doc_id: &str, op: &Operation) -> (r: Result<PreviewReport, ApplyError>)
    ensures
        final(store)@ == old(store)@,
        match preview_builtin_spec(old(store)@, doc_id@, op@) {
            Ok(rep) => r matches Ok(x) && x@ == rep,
            Err(e) => r matches Err(x) && x@ == e,
        },
{
    let registry = HandlerRegistry::default();
    assert(slot(registry@, op@.op_type) == default_slot(op@.op_type));
    preview_with_registry(store, doc_id, op, &registry)
}

} // verus!
