//! Properties of the library as a whole: what every operation, revert,
//! import and checkout keeps and produces.

use vstd::prelude::*;
use crate::apply::{apply_spec, commit_refusal, commit_spec, finish_spec, next_branch, next_revision, operation_record, precheck_spec};
use crate::check::{check_all_spec, check_conflict_spec, check_revision_spec, doc_check_all_spec};
use crate::conflict::{content_conflict, node_conflict, revision_conflict, ConflictKind};
use crate::engine::{
    branch_name, branch_spec_check, create_spec, delete_all, delete_spec, edit_spec, insert_splits,
    link_spec, merge_spec, record_spec, reparent_spec, split_spec, unlink_spec, ApplyErrorV,
};
use crate::handler::builtin_spec;
use crate::preview::{node_diffs_spec, preview_builtin_spec, relation_diffs_spec, PreviewReportV};
use crate::model::{OperationType, OperationV, RevisionV};
use crate::node::{kind_text, NodeKind, NodeV};
use crate::export::md_body;
use crate::render::{element_html, escape_spec, indent_of};
use crate::tree::trim;
use crate::store::{
    advance_head_spec, delete_node_spec, doc_tables, first_pos, get_hash_spec, has_node, head_spec, is_head_row,
    lemma_first_pos, list_nodes_spec, node_row_of, rev_is, save_snapshot_spec, snapshot_is,
    snapshot_spec, DocTablesV, NodeRowV, RevisionRowV, SnapshotV,
};
use crate::history::{insert_id, sorted_ids, insert_nodes_spec, insert_revert_changes, revert_spec, RevertErrorV};
use crate::import::{
    head_or_seed, import_spec, import_tables, insert_relations_spec, resolved_nodes, CanonicalPayloadV,
};
use crate::branching::{changed_ids, conflict_ids, last_with, merge_keys, merged_nodes, opt_node_equal, pick_at, checkout_spec, insert_merge_changes, merge_commit, merge_prefix, tip_of};
use crate::store::{add_parent_spec, parents_spec};
use crate::store::{doc_index, live_nodes_spec, revision_row_spec, with_tables};
use crate::model::RelationV;
use crate::engine::relation_id;
use crate::order::text_lt;
use crate::store::get_node_spec;

verus! {

/// `b` has the header, revisions, operation log and snapshots of `a`.
pub open spec fn history_kept(a: DocTablesV, b: DocTablesV) -> bool {
    &&& b.doc == a.doc
    &&& b.created_at == a.created_at
    &&& b.updated_at == a.updated_at
    &&& b.revisions == a.revisions
    &&& b.operations == a.operations
    &&& b.snapshots == a.snapshots
}

/// Inserting nodes one by one appends their rows and touches nothing else.
pub proof fn lemma_insert_nodes_ok(t: DocTablesV, nodes: Seq<NodeV>, k: nat)
    requires
        k <= nodes.len(),
        insert_nodes_spec(t, nodes, k) is Ok,
    ensures
        insert_nodes_spec(t, nodes, k) == Ok::<DocTablesV, crate::store::StoreErrorV>(
            DocTablesV { nodes: t.nodes + nodes.take(k as int).map_values(|n: NodeV| node_row_of(n)), ..t },
        ),
    decreases k,
{
    if k == 0 {
        assert(t.nodes + nodes.take(0).map_values(|n: NodeV| node_row_of(n)) =~= t.nodes);
    } else {
        lemma_insert_nodes_ok(t, nodes, (k - 1) as nat);
        let prev = t.nodes + nodes.take(k - 1).map_values(|n: NodeV| node_row_of(n));
        assert(prev.push(node_row_of(nodes[k - 1])) =~= t.nodes + nodes.take(k as int).map_values(|n: NodeV| node_row_of(n)));
    }
}

proof fn lemma_splits_keep_history(t: DocTablesV, src: NodeV, ids: Seq<Seq<char>>, k: nat)
    requires
        insert_splits(t, src, ids, k) is Ok,
    ensures
        history_kept(t, insert_splits(t, src, ids, k)->Ok_0),
        insert_splits(t, src, ids, k)->Ok_0.relations == t.relations,
    decreases k,
{
    if k > 0 {
        lemma_splits_keep_history(t, src, ids, (k - 1) as nat);
    }
}

proof fn lemma_delete_all_keeps_history(t: DocTablesV, ids: Seq<Seq<char>>, k: nat)
    ensures
        history_kept(t, delete_all(t, ids, k)),
        delete_all(t, ids, k).relations == t.relations,
    decreases k,
{
    if k > 0 {
        lemma_delete_all_keeps_history(t, ids, (k - 1) as nat);
    }
}

/// No built-in handler touches the header, revisions, operation log or
/// snapshots; those are the commit's alone.
pub proof fn lemma_builtin_keeps_history(k: OperationType, t: DocTablesV, op: OperationV, rev: Seq<char>)
    ensures
        builtin_spec(k, t, op, rev) is Ok ==> history_kept(t, builtin_spec(k, t, op, rev)->Ok_0),
{
    match k {
        OperationType::Split => {
            if let Some(source) = op.target {
                if op.targets.len() > 0 {
                    if let Some(src) = crate::store::get_node_spec(t, source) {
                        if insert_splits(t, src, op.targets, op.targets.len()) is Ok {
                            lemma_splits_keep_history(t, src, op.targets, op.targets.len());
                        }
                    }
                }
            }
        },
        OperationType::Merge => {
            lemma_delete_all_keeps_history(t, op.targets, op.targets.len());
        },
        _ => {},
    }
}

/// After saving the snapshot of `rev`, `rev`'s snapshot is `nodes`.
pub proof fn lemma_save_snapshot(t: DocTablesV, rev: Seq<char>, nodes: Seq<NodeV>, ts: Seq<char>)
    ensures
        snapshot_spec(save_snapshot_spec(t, rev, nodes, ts), rev) == Some(nodes),
        save_snapshot_spec(t, rev, nodes, ts).nodes == t.nodes,
        save_snapshot_spec(t, rev, nodes, ts).revisions == t.revisions,
        save_snapshot_spec(t, rev, nodes, ts).operations == t.operations,
{
    let f = snapshot_is(rev);
    let p = first_pos(t.snapshots, f);
    lemma_first_pos(t.snapshots, f);
    let t2 = save_snapshot_spec(t, rev, nodes, ts);
    lemma_first_pos(t2.snapshots, f);
    let q = first_pos(t2.snapshots, f);
    if p < 0 {
        assert(f(t2.snapshots[t.snapshots.len() as int]));
        assert(q == t.snapshots.len()) by {
            if q < t.snapshots.len() {
                assert(t2.snapshots[q] == t.snapshots[q]);
            }
        }
    } else {
        assert(f(t2.snapshots[p]));
        assert(q == p) by {
            if q < p {
                assert(t2.snapshots[q].revision == t.snapshots[q].revision);
            }
        }
    }
}

/// Every applied operation produces exactly one new revision on top of the
/// head it expected: the new revision becomes the only head, the revisions
/// before it keep their content, the operation is logged, and the new
/// revision's snapshot is the document's live node list.
pub proof fn law_apply_produces_revision(s: Seq<DocTablesV>, doc: Seq<char>, op: OperationV, ts: Seq<char>)
    requires
        apply_spec(s, doc, op, ts) is Ok,
    ensures
        ({
            let t = doc_tables(s, doc)->0;
            let (t2, rev) = apply_spec(s, doc, op, ts)->Ok_0;
            &&& doc_tables(s, doc) is Some
            &&& head_spec(t) == Some(op.expected_revision)
            &&& rev == next_revision(t)
            &&& t2.revisions.len() == t.revisions.len() + 1
            &&& forall|i: int| 0 <= i < t.revisions.len() ==> #[trigger] t2.revisions[i].rev == t.revisions[i].rev
            &&& t2.revisions.last().rev.id == rev
            &&& t2.revisions.last().rev.parent == Some(op.expected_revision)
            &&& t2.revisions.last().rev.operation == op.id
            &&& head_spec(t2) == Some(rev)
            &&& t2.operations == t.operations.push(operation_record(op, ts))
            &&& snapshot_spec(t2, rev) == Some(list_nodes_spec(t2))
        }),
{
    let t = doc_tables(s, doc)->0;
    let head = precheck_spec(s, doc, op)->Ok_0;
    let rev = next_revision(t);
    lemma_builtin_keeps_history(op.op_type, t, op, rev);
    let t1 = builtin_spec(op.op_type, t, op, rev)->Ok_0;
    let branch = next_branch(t, op, head);
    assert(commit_refusal(t1, op, rev) is None);
    lemma_first_pos(t1.revisions, rev_is(rev));
    let c1 = DocTablesV { operations: t1.operations.push(operation_record(op, ts)), ..t1 };
    let c2 = advance_head_spec(c1, rev);
    let c3 = DocTablesV {
        revisions: c2.revisions.push(RevisionRowV {
            rev: crate::apply::new_revision(op, rev, branch, ts),
            is_head: true,
            parents: crate::store::parent_list(Some(op.expected_revision)),
        }),
        ..c2
    };
    lemma_save_snapshot(c3, rev, list_nodes_spec(c3), ts);
    let t2 = commit_spec(t1, op, rev, branch, ts);
    assert(t2.revisions == c3.revisions);
    lemma_first_pos(c3.revisions, is_head_row());
    let n = t.revisions.len() as int;
    assert(is_head_row()(c3.revisions[n]));
    assert(first_pos(c3.revisions, is_head_row()) == n) by {
        let q = first_pos(c3.revisions, is_head_row());
        if q < n {
            assert(c3.revisions[q] == RevisionRowV { is_head: c1.revisions[q].rev.id == rev, ..c1.revisions[q] });
            assert(!rev_is(rev)(t1.revisions[q]));
        }
    }
    assert forall|i: int| 0 <= i < t.revisions.len() implies #[trigger] t2.revisions[i].rev == t.revisions[i].rev by {
        assert(c3.revisions[i] == RevisionRowV { is_head: c1.revisions[i].rev.id == rev, ..c1.revisions[i] });
    }
    assert(list_nodes_spec(t2) == list_nodes_spec(c3));
}

/// A preview reports what applying the operation does: an operation that
/// fails its preconditions or its handler is refused by both with the same
/// error, and an applied one was previewed on the head it expected, with
/// the revision it creates and with the node and relation changes between
/// the live document before and after.
pub proof fn law_preview_matches_apply(s: Seq<DocTablesV>, doc: Seq<char>, op: OperationV, ts: Seq<char>)
    ensures
        precheck_spec(s, doc, op) is Err ==> {
            &&& preview_builtin_spec(s, doc, op) == Err::<PreviewReportV, ApplyErrorV>(precheck_spec(s, doc, op)->Err_0)
            &&& apply_spec(s, doc, op, ts) == Err::<(DocTablesV, Seq<char>), ApplyErrorV>(precheck_spec(s, doc, op)->Err_0)
        },
        precheck_spec(s, doc, op) is Ok && builtin_spec(op.op_type, doc_tables(s, doc)->0, op, next_revision(doc_tables(s, doc)->0)) is Err ==> {
            let e = builtin_spec(op.op_type, doc_tables(s, doc)->0, op, next_revision(doc_tables(s, doc)->0))->Err_0;
            &&& preview_builtin_spec(s, doc, op) == Err::<PreviewReportV, ApplyErrorV>(e)
            &&& apply_spec(s, doc, op, ts) == Err::<(DocTablesV, Seq<char>), ApplyErrorV>(e)
        },
        apply_spec(s, doc, op, ts) is Ok ==> ({
            let t = doc_tables(s, doc)->0;
            let (t2, rev) = apply_spec(s, doc, op, ts)->Ok_0;
            preview_builtin_spec(s, doc, op) matches Ok(rep) && {
                &&& rep.current_revision == op.expected_revision
                &&& rep.next_revision == rev
                &&& rep.nodes == node_diffs_spec(list_nodes_spec(t), list_nodes_spec(t2))
                &&& rep.relations == relation_diffs_spec(t.relations, t2.relations)
            }
        }),
{
    if apply_spec(s, doc, op, ts) is Ok {
        law_apply_produces_revision(s, doc, op, ts);
        let t = doc_tables(s, doc)->0;
        let rev = next_revision(t);
        let head = precheck_spec(s, doc, op)->Ok_0;
        let t1 = builtin_spec(op.op_type, t, op, rev)->Ok_0;
        let branch = next_branch(t, op, head);
        let c1 = DocTablesV { operations: t1.operations.push(operation_record(op, ts)), ..t1 };
        let c2 = advance_head_spec(c1, rev);
        let c3 = DocTablesV {
            revisions: c2.revisions.push(RevisionRowV {
                rev: crate::apply::new_revision(op, rev, branch, ts),
                is_head: true,
                parents: crate::store::parent_list(Some(op.expected_revision)),
            }),
            ..c2
        };
        lemma_save_snapshot(c3, rev, list_nodes_spec(c3), ts);
        assert(list_nodes_spec(c3) == list_nodes_spec(t1));
    }
}

/// An operation that expects a revision other than the head is refused with
/// a revision conflict naming both, before anything is applied.
pub proof fn law_stale_revision_conflicts(s: Seq<DocTablesV>, doc: Seq<char>, op: OperationV, ts: Seq<char>)
    requires
        doc_tables(s, doc) is Some,
        head_spec(doc_tables(s, doc)->0) is Some,
        head_spec(doc_tables(s, doc)->0)->0 != op.expected_revision,
    ensures
        apply_spec(s, doc, op, ts) == Err::<(DocTablesV, Seq<char>), ApplyErrorV>(
            ApplyErrorV::Conflict(revision_conflict(op.expected_revision, head_spec(doc_tables(s, doc)->0)->0)),
        ),
        revision_conflict(op.expected_revision, head_spec(doc_tables(s, doc)->0)->0).kind == ConflictKind::Revision,
{
}

/// An operation on an existing node that carries a content hash other than
/// the node's stored one is refused with a content conflict naming the
/// node and both hashes, before anything is applied.
pub proof fn law_stale_hash_conflicts(s: Seq<DocTablesV>, doc: Seq<char>, op: OperationV, ts: Seq<char>)
    requires
        doc_tables(s, doc) is Some,
        head_spec(doc_tables(s, doc)->0) == Some(op.expected_revision),
        op.target is Some,
        has_node(doc_tables(s, doc)->0, op.target->0),
        op.expected_hash is Some,
        get_hash_spec(doc_tables(s, doc)->0, op.target->0) is Some,
        get_hash_spec(doc_tables(s, doc)->0, op.target->0) != op.expected_hash,
    ensures
        apply_spec(s, doc, op, ts) == Err::<(DocTablesV, Seq<char>), ApplyErrorV>(ApplyErrorV::Conflict(content_conflict(
            op.target->0,
            op.expected_hash->0,
            get_hash_spec(doc_tables(s, doc)->0, op.target->0)->0,
        ))),
{
}

/// An edit of a node that is not in the document is refused with a node
/// conflict naming it, before anything is applied (creating a node or a
/// branch needs no existing target).
pub proof fn law_missing_target_conflicts(s: Seq<DocTablesV>, doc: Seq<char>, op: OperationV, ts: Seq<char>)
    requires
        doc_tables(s, doc) is Some,
        head_spec(doc_tables(s, doc)->0) == Some(op.expected_revision),
        op.op_type != OperationType::Create,
        op.op_type != OperationType::Branch,
        op.target is Some,
        !has_node(doc_tables(s, doc)->0, op.target->0),
    ensures
        apply_spec(s, doc, op, ts) == Err::<(DocTablesV, Seq<char>), ApplyErrorV>(
            ApplyErrorV::Conflict(node_conflict(op.target->0)),
        ),
{
}

/// A branch operation labels its new revision with the branch name and
/// leaves the live nodes and relations as they were.
pub proof fn law_branch_keeps_content(s: Seq<DocTablesV>, doc: Seq<char>, op: OperationV, ts: Seq<char>)
    requires
        op.op_type == OperationType::Branch,
        apply_spec(s, doc, op, ts) is Ok,
    ensures
        ({
            let t = doc_tables(s, doc)->0;
            let (t2, rev) = apply_spec(s, doc, op, ts)->Ok_0;
            &&& t2.nodes == t.nodes
            &&& t2.relations == t.relations
            &&& t2.changes == t.changes
            &&& t2.revisions.last().rev.branch == branch_name(op)
        }),
{
    let t = doc_tables(s, doc)->0;
    let rev = next_revision(t);
    let t1 = builtin_spec(op.op_type, t, op, rev)->Ok_0;
    assert(t1 == t);
    let head = precheck_spec(s, doc, op)->Ok_0;
    let branch = next_branch(t, op, head);
    let c1 = DocTablesV { operations: t1.operations.push(operation_record(op, ts)), ..t1 };
    let c2 = advance_head_spec(c1, rev);
    let c3 = DocTablesV {
        revisions: c2.revisions.push(RevisionRowV {
            rev: crate::apply::new_revision(op, rev, branch, ts),
            is_head: true,
            parents: crate::store::parent_list(Some(op.expected_revision)),
        }),
        ..c2
    };
    lemma_save_snapshot(c3, rev, list_nodes_spec(c3), ts);
}

proof fn lemma_revert_changes_keep_nodes(t: DocTablesV, rev: Seq<char>, target: Seq<char>, nodes: Seq<NodeV>, k: nat)
    requires
        insert_revert_changes(t, rev, target, nodes, k) is Ok,
    ensures
        history_kept(t, insert_revert_changes(t, rev, target, nodes, k)->Ok_0),
        insert_revert_changes(t, rev, target, nodes, k)->Ok_0.nodes == t.nodes,
    decreases k,
{
    if k > 0 {
        lemma_revert_changes_keep_nodes(t, rev, target, nodes, (k - 1) as nat);
    }
}

/// The live nodes of tables whose node rows were rebuilt from `nodes`.
proof fn lemma_rebuilt_nodes(t: DocTablesV, nodes: Seq<NodeV>)
    requires
        insert_nodes_spec(DocTablesV { nodes: Seq::empty(), ..t }, nodes, nodes.len()) is Ok,
    ensures
        ({
            let t1 = insert_nodes_spec(DocTablesV { nodes: Seq::empty(), ..t }, nodes, nodes.len())->Ok_0;
            &&& live_nodes_spec(t1) == nodes
            &&& t1 == DocTablesV { nodes: t1.nodes, ..t }
        }),
{
    let t0 = DocTablesV { nodes: Seq::empty(), ..t };
    lemma_insert_nodes_ok(t0, nodes, nodes.len());
    let t1 = insert_nodes_spec(t0, nodes, nodes.len())->Ok_0;
    assert(nodes.take(nodes.len() as int) =~= nodes);
    assert(live_nodes_spec(t1) =~= nodes);
}

/// Appending a head row for a revision id no row has makes it the head.
proof fn lemma_new_head(rows: Seq<RevisionRowV>, row: RevisionRowV)
    requires
        row.is_head,
        forall|i: int| 0 <= i < rows.len() ==> !(#[trigger] rows[i]).is_head,
    ensures
        first_pos(rows.push(row), is_head_row()) == rows.len(),
{
    let r2 = rows.push(row);
    lemma_first_pos(r2, is_head_row());
    assert(is_head_row()(r2[rows.len() as int]));
    let q = first_pos(r2, is_head_row());
    if q < rows.len() {
        assert(r2[q] == rows[q]);
    }
}

/// A revert always records a new revision on top of the head (history is
/// never rewritten): the revisions before it keep their content, the new
/// one becomes the only head, the live nodes become exactly the nodes of
/// the target revision's snapshot, and the new revision gets its own
/// snapshot of them, as every revision does.
pub proof fn law_revert_creates_revision(
    s: Seq<DocTablesV>,
    doc: Seq<char>,
    target: Seq<char>,
    reason: Option<Seq<char>>,
    ts: Seq<char>,
)
    requires
        revert_spec(s, doc, target, reason, ts) is Ok,
    ensures
        ({
            let t = doc_tables(s, doc)->0;
            let t2 = revert_spec(s, doc, target, reason, ts)->Ok_0;
            let rev = crate::apply::next_revision(t);
            &&& doc_tables(s, doc) is Some
            &&& head_spec(t) is Some && head_spec(t)->0 != target
            &&& t2.revisions.len() == t.revisions.len() + 1
            &&& forall|i: int| 0 <= i < t.revisions.len() ==> #[trigger] t2.revisions[i].rev == t.revisions[i].rev
            &&& t2.revisions.last().rev.id == rev
            &&& t2.revisions.last().rev.parent == head_spec(t)
            &&& head_spec(t2) == Some(rev)
            &&& live_nodes_spec(t2) == snapshot_spec(t, target)->0
            &&& snapshot_spec(t2, rev) == Some(list_nodes_spec(t2))
        }),
{
    let t = doc_tables(s, doc)->0;
    let h = head_spec(t)->0;
    let nodes = snapshot_spec(t, target)->0;
    let seq = crate::store::next_seq_spec(t);
    let rev = crate::id::revision_text(seq);
    let op_id = crate::history::revert_op_id(seq);
    lemma_rebuilt_nodes(t, nodes);
    let t1 = insert_nodes_spec(DocTablesV { nodes: Seq::empty(), ..t }, nodes, nodes.len())->Ok_0;
    lemma_revert_changes_keep_nodes(t1, rev, target, nodes, nodes.len());
    let t2 = insert_revert_changes(t1, rev, target, nodes, nodes.len())->Ok_0;
    let t3 = advance_head_spec(
        DocTablesV { operations: t2.operations.push(crate::history::revert_record(op_id, h, target, reason, ts)), ..t2 },
        rev,
    );
    lemma_first_pos(t3.revisions, rev_is(rev));
    assert forall|i: int| 0 <= i < t3.revisions.len() implies !(#[trigger] t3.revisions[i]).is_head by {
        assert(!rev_is(rev)(t3.revisions[i]));
    }
    let row = RevisionRowV {
        rev: RevisionV { id: rev, parent: Some(h), operation: op_id, created_at: ts, message: reason, branch: None },
        is_head: true,
        parents: crate::store::parent_list(Some(h)),
    };
    lemma_new_head(t3.revisions, row);
    assert(live_nodes_spec(t3) == live_nodes_spec(t1));
    let t4 = crate::store::insert_revision_spec(t3, row.rev, true)->Ok_0;
    lemma_save_snapshot(t4, rev, list_nodes_spec(t4), ts);
    let t5 = save_snapshot_spec(t4, rev, list_nodes_spec(t4), ts);
    assert(live_nodes_spec(t5) == live_nodes_spec(t4));
    assert(list_nodes_spec(t5) == list_nodes_spec(t4));
}

/// Importing a payload replaces the document: its header, live nodes (with
/// unknown kinds resolved) and relations become the payload's, a new
/// revision after the previous head is recorded as the only head, the
/// revisions before it keep their content, and the new revision's snapshot
/// holds the imported nodes.
pub proof fn law_import_replaces_document(s: Seq<DocTablesV>, doc: Seq<char>, p: CanonicalPayloadV, ts: Seq<char>)
    requires
        import_spec(s, doc, p, ts) is Ok,
    ensures
        ({
            let (s2, next) = import_spec(s, doc, p, ts)->Ok_0;
            let t2 = doc_tables(s2, doc)->0;
            let old_revs = match doc_tables(s, doc) {
                Some(t) => t.revisions,
                None => Seq::empty(),
            };
            &&& p.document.id == doc
            &&& doc_tables(s2, doc) is Some
            &&& t2.doc == p.document
            &&& live_nodes_spec(t2) == resolved_nodes(p.nodes)
            &&& t2.relations == p.relations
            &&& t2.revisions.len() == old_revs.len() + 1
            &&& forall|i: int| 0 <= i < old_revs.len() ==> #[trigger] t2.revisions[i].rev == old_revs[i].rev
            &&& t2.revisions.last().rev.id == next
            &&& head_spec(t2) == Some(next)
            &&& snapshot_spec(t2, next) == Some(resolved_nodes(p.nodes))
        }),
{
    let nodes = resolved_nodes(p.nodes);
    let fresh = doc_tables(s, doc) is None;
    let t = match doc_tables(s, doc) {
        Some(t) => t,
        None => crate::import::fresh_tables(p.document),
    };
    lemma_import_tables(t, p.document, nodes, p.relations, ts, fresh);
    let (t2, next) = import_tables(t, p.document, nodes, p.relations, ts, fresh)->Ok_0;
    crate::store::lemma_doc_index(s, doc);
    if !fresh {
        crate::store::lemma_doc_index_update(s, doc, t2);
    } else {
        assert(s.push(t2).drop_last() =~= s);
    }
}

proof fn lemma_insert_relations_ok(t: DocTablesV, rels: Seq<RelationV>, k: nat)
    requires
        k <= rels.len(),
        insert_relations_spec(t, rels, k) is Ok,
    ensures
        insert_relations_spec(t, rels, k) == Ok::<DocTablesV, crate::store::StoreErrorV>(
            DocTablesV { relations: t.relations + rels.take(k as int), ..t },
        ),
    decreases k,
{
    if k == 0 {
        assert(t.relations + rels.take(0) =~= t.relations);
    } else {
        lemma_insert_relations_ok(t, rels, (k - 1) as nat);
        assert((t.relations + rels.take(k - 1)).push(rels[k - 1]) =~= t.relations + rels.take(k as int));
    }
}

proof fn lemma_import_tables(t: DocTablesV, doc: crate::model::DocumentV, nodes: Seq<NodeV>, rels: Seq<RelationV>, ts: Seq<char>, fresh: bool)
    requires
        import_tables(t, doc, nodes, rels, ts, fresh) is Ok,
    ensures
        ({
            let (t2, next) = import_tables(t, doc, nodes, rels, ts, fresh)->Ok_0;
            &&& t2.doc == doc
            &&& live_nodes_spec(t2) == nodes
            &&& t2.relations == rels
            &&& t2.revisions.len() == t.revisions.len() + 1
            &&& forall|i: int| 0 <= i < t.revisions.len() ==> #[trigger] t2.revisions[i].rev == t.revisions[i].rev
            &&& t2.revisions.last().rev.id == next
            &&& head_spec(t2) == Some(next)
            &&& snapshot_spec(t2, next) == Some(nodes)
        }),
{
    let t0 = DocTablesV { nodes: Seq::empty(), relations: Seq::empty(), ..t };
    let e = DocTablesV { nodes: Seq::empty(), ..t };
    assert(t0 == DocTablesV { nodes: Seq::empty(), ..DocTablesV { relations: Seq::empty(), ..t } });
    lemma_rebuilt_nodes(DocTablesV { relations: Seq::empty(), ..t }, nodes);
    let t2 = insert_nodes_spec(t0, nodes, nodes.len())->Ok_0;
    lemma_insert_relations_ok(t2, rels, rels.len());
    assert(rels.take(rels.len() as int) =~= rels);
    let t3 = insert_relations_spec(t2, rels, rels.len())->Ok_0;
    assert(t3.relations =~= rels);
    let head = head_or_seed(t);
    let next = crate::import::bump_spec(head);
    let rv = crate::import::import_revision(next, head, ts, nodes.len(), rels.len());
    lemma_first_pos(t3.revisions, rev_is(next));
    let t4 = crate::store::insert_revision_spec(t3, rv, true)->Ok_0;
    let t5 = advance_head_spec(t4, next);
    lemma_save_snapshot(t5, next, nodes, ts);
    assert forall|i: int| 0 <= i < t.revisions.len() implies !(#[trigger] t5.revisions[i]).is_head by {
        assert(!rev_is(next)(t3.revisions[i]));
    }
    let last = t5.revisions.len() - 1;
    assert(t5.revisions == t5.revisions.drop_last().push(t5.revisions[last]));
    lemma_new_head(t5.revisions.drop_last(), t5.revisions[last]);
}

/// Checking out a branch creates no revision: the revisions keep their
/// content and order, only the head moves to the branch tip, and the live
/// nodes become the tip's snapshot.
pub proof fn law_checkout_moves_head_only(s: Seq<DocTablesV>, doc: Seq<char>, name: Seq<char>)
    requires
        checkout_spec(s, doc, name) is Ok,
    ensures
        ({
            let t = doc_tables(s, doc)->0;
            let (t2, tip) = checkout_spec(s, doc, name)->Ok_0;
            &&& doc_tables(s, doc) is Some
            &&& t2.revisions.len() == t.revisions.len()
            &&& forall|i: int| 0 <= i < t.revisions.len() ==> #[trigger] t2.revisions[i].rev == t.revisions[i].rev
            &&& forall|i: int| 0 <= i < t.revisions.len() ==> (#[trigger] t2.revisions[i]).is_head == (t.revisions[i].rev.id == tip)
            &&& live_nodes_spec(t2) == snapshot_spec(t, tip)->0
            &&& t2.operations == t.operations
            &&& t2.snapshots == t.snapshots
        }),
{
    let t = doc_tables(s, doc)->0;
    let (t2, tip) = checkout_spec(s, doc, name)->Ok_0;
    let nodes = snapshot_spec(t, tip)->0;
    lemma_rebuilt_nodes(t, nodes);
}

proof fn lemma_merge_changes_keep(
    t: DocTablesV,
    rev: Seq<char>,
    name: Seq<char>,
    main: Seq<NodeV>,
    merged: Seq<NodeV>,
    ids: Seq<Seq<char>>,
    k: nat,
)
    requires
        insert_merge_changes(t, rev, name, main, merged, ids, k) is Ok,
    ensures
        history_kept(t, insert_merge_changes(t, rev, name, main, merged, ids, k)->Ok_0),
        insert_merge_changes(t, rev, name, main, merged, ids, k)->Ok_0.nodes == t.nodes,
    decreases k,
{
    if k > 0 {
        lemma_merge_changes_keep(t, rev, name, main, merged, ids, (k - 1) as nat);
    }
}

/// A clean merge of branch `name` records one new revision whose parents
/// are the main head and the branch tip, in that order; it becomes the only
/// head, the revisions before it keep their content, and the live nodes and
/// the new snapshot are the merged nodes.
pub proof fn law_merge_records_two_parents(
    s: Seq<DocTablesV>,
    doc: Seq<char>,
    name: Seq<char>,
    reason: Option<Seq<char>>,
    ts: Seq<char>,
)
    requires
        crate::branching::merge_spec(s, doc, name, reason, ts) is Ok,
    ensures
        ({
            let t = doc_tables(s, doc)->0;
            let (t2, rev) = crate::branching::merge_spec(s, doc, name, reason, ts)->Ok_0;
            &&& doc_tables(s, doc) is Some
            &&& head_spec(t) is Some
            &&& tip_of(t.revisions, name) is Some
            &&& t2.revisions.len() == t.revisions.len() + 1
            &&& forall|i: int| 0 <= i < t.revisions.len() ==> #[trigger] t2.revisions[i].rev == t.revisions[i].rev
            &&& t2.revisions.last().rev.id == rev
            &&& head_spec(t2) == Some(rev)
            &&& parents_spec(t2, rev) == seq![head_spec(t)->0, (tip_of(t.revisions, name)->0).0]
            &&& snapshot_spec(t2, rev) == Some(live_nodes_spec(t2))
        }),
{
    let t = doc_tables(s, doc)->0;
    let (t2, rev) = crate::branching::merge_spec(s, doc, name, reason, ts)->Ok_0;
    let main_rev = head_spec(t)->0;
    let source = (tip_of(t.revisions, name)->0).0;
    let base = crate::branching::base_walk(t, crate::branching::ancestors_spec(t, main_rev), source, t.revisions.len())->0;
    let b = snapshot_spec(t, base)->0;
    let m = snapshot_spec(t, main_rev)->0;
    let sn = snapshot_spec(t, source)->0;
    let keys = crate::branching::merge_keys(b, m, sn);
    let merged = crate::branching::merged_nodes(keys, b, m, sn);
    let changed = crate::branching::changed_ids(keys, b, m, sn);
    let msg = crate::branching::merge_message(name, reason);
    let seq = crate::store::next_seq_spec(t);
    let op_id = crate::branching::merge_op_id(seq);
    lemma_rebuilt_nodes(t, merged);
    let t1 = insert_nodes_spec(DocTablesV { nodes: Seq::empty(), ..t }, merged, merged.len())->Ok_0;
    let c2 = DocTablesV { operations: t1.operations.push(crate::branching::merge_record(op_id, main_rev, source, msg, ts)), ..t1 };
    let rv = RevisionV { id: rev, parent: Some(main_rev), operation: op_id, created_at: ts, message: Some(msg), branch: None };
    lemma_first_pos(c2.revisions, rev_is(rev));
    let c3 = crate::store::insert_revision_spec(c2, rv, true)->Ok_0;
    let c4 = advance_head_spec(add_parent_spec(c3, rev, source), rev);
    assert(c4 == merge_prefix(t, main_rev, source, msg, merged, ts)->Ok_0);
    lemma_merge_changes_keep(c4, rev, name, m, merged, changed, changed.len());
    let c5 = insert_merge_changes(c4, rev, name, m, merged, changed, changed.len())->Ok_0;
    lemma_save_snapshot(c5, rev, merged, ts);
    let n = t.revisions.len() as int;
    assert forall|i: int| 0 <= i < n implies !(#[trigger] c4.revisions[i]).is_head && c4.revisions[i].rev == t.revisions[i].rev by {
        assert(!rev_is(rev)(c2.revisions[i]));
    }
    assert(c4.revisions == c4.revisions.drop_last().push(c4.revisions[n]));
    lemma_new_head(c4.revisions.drop_last(), c4.revisions[n]);
    lemma_first_pos(t2.revisions, rev_is(rev));
    assert(rev_is(rev)(t2.revisions[n]));
    assert(first_pos(t2.revisions, rev_is(rev)) == n) by {
        let q = first_pos(t2.revisions, rev_is(rev));
        if q < n {
            assert(!rev_is(rev)(c2.revisions[q]));
        }
    }
    assert(parents_spec(t2, rev) =~= seq![main_rev, source]);
}

/// Escaped text holds no markup characters: no `<`, `>`, `"` or `'`, and
/// every `&` starts one of the five entities.
pub proof fn law_escape_has_no_markup(s: Seq<char>)
    ensures
        forall|i: int| 0 <= i < crate::render::escape_spec(s).len() ==> {
            let c = #[trigger] crate::render::escape_spec(s)[i];
            c != '<' && c != '>' && c != '"' && c != '\''
        },
        crate::render::escape_spec(s).len() >= s.len(),
    decreases s.len(),
{
    reveal_strlit("&lt;");
    reveal_strlit("&gt;");
    reveal_strlit("&amp;");
    reveal_strlit("&quot;");
    reveal_strlit("&#39;");
    if s.len() > 0 {
        law_escape_has_no_markup(s.drop_last());
        let a = crate::render::escape_spec(s.drop_last());
        let b = crate::render::escape_char(s.last());
        assert forall|i: int| 0 <= i < (a + b).len() implies {
            let c = #[trigger] (a + b)[i];
            c != '<' && c != '>' && c != '"' && c != '\''
        } by {
            if i < a.len() {
                assert((a + b)[i] == a[i]);
            } else {
                assert((a + b)[i] == b[i - a.len()]);
            }
        }
    }
}

/// Base64 text is four characters for every started group of three bytes.
pub proof fn law_base64_length(b: Seq<u8>)
    ensures
        crate::package::b64_spec(b).len() == 4 * ((b.len() + 2) / 3),
    decreases b.len(),
{
    if b.len() >= 3 {
        law_base64_length(b.skip(3));
    }
}

/// Base64 is taken three bytes at a time: encoding a concatenation whose
/// first part is a whole number of groups encodes the parts side by side.
pub proof fn law_base64_concat(a: Seq<u8>, b: Seq<u8>)
    requires
        a.len() % 3 == 0,
    ensures
        crate::package::b64_spec(a + b) == crate::package::b64_spec(a) + crate::package::b64_spec(b),
    decreases a.len(),
{
    if a.len() == 0 {
        assert(a + b =~= b);
    } else {
        assert((a + b).skip(3) =~= a.skip(3) + b);
        law_base64_concat(a.skip(3), b);
        let x = crate::package::b64_spec(a + b);
        assert(x =~= crate::package::b64_spec(a) + crate::package::b64_spec(b));
    }
}

/// A patch never changes the id of the node it is applied to.
pub proof fn law_patch_keeps_id(n: NodeV, p: crate::model::PatchV)
    ensures
        crate::patch::patch_node(n, p).id == n.id,
{
    lemma_attrs_keep_id(crate::patch::patch_fields(n, p), p.attributes);
}

proof fn lemma_attrs_keep_id(n: NodeV, es: crate::attrs::Entries)
    ensures
        crate::patch::apply_attrs(n, es).id == n.id,
    decreases es.len(),
{
    if es.len() > 0 {
        lemma_attrs_keep_id(n, es.drop_last());
    }
}

/// The ids of the live nodes, in stored order.
pub open spec fn node_ids(t: DocTablesV) -> Seq<Seq<char>> {
    t.nodes.map_values(|r: NodeRowV| r.node.id)
}

/// Node ids are stable: an update, rename, move or replace changes the
/// target node in place, so the document keeps exactly the node ids it had,
/// in the same order.
pub proof fn law_edits_keep_node_ids(s: Seq<DocTablesV>, doc: Seq<char>, op: OperationV, ts: Seq<char>)
    requires
        op.op_type == OperationType::Update || op.op_type == OperationType::Rename
            || op.op_type == OperationType::Move || op.op_type == OperationType::Replace,
        apply_spec(s, doc, op, ts) is Ok,
    ensures
        node_ids((apply_spec(s, doc, op, ts)->Ok_0).0) == node_ids(doc_tables(s, doc)->0),
{
    let t = doc_tables(s, doc)->0;
    let rev = next_revision(t);
    let tg = op.target->0;
    let pt = op.patch->0;
    let n = crate::store::get_node_spec(t, tg)->0;
    let n2 = crate::patch::patch_node(n, pt);
    law_patch_keeps_id(n, pt);
    crate::store::lemma_node_pos(t.nodes, tg);
    let u = crate::store::update_node_spec(t, n2);
    assert(node_ids(u) =~= node_ids(t));
    let t1 = builtin_spec(op.op_type, t, op, rev)->Ok_0;
    assert(t1.nodes == u.nodes);
    let head = precheck_spec(s, doc, op)->Ok_0;
    let branch = next_branch(t, op, head);
    let c1 = DocTablesV { operations: t1.operations.push(operation_record(op, ts)), ..t1 };
    let c2 = advance_head_spec(c1, rev);
    let c3 = DocTablesV {
        revisions: c2.revisions.push(RevisionRowV {
            rev: crate::apply::new_revision(op, rev, branch, ts),
            is_head: true,
            parents: crate::store::parent_list(Some(op.expected_revision)),
        }),
        ..c2
    };
    lemma_save_snapshot(c3, rev, list_nodes_spec(c3), ts);
}

/// The one-line form of any conflict names it: the word `CONFLICT`
/// appears in it whatever its detail text.
pub proof fn law_conflict_line_says_conflict(c: crate::conflict::ConflictV)
    ensures
        ({
            let line = c.detail + " ("@ + crate::conflict::conflict_kind_text(c.kind) + ")"@;
            exists|i: int| 0 <= i && i + 8 <= line.len() && #[trigger] line.subrange(i, i + 8) == "CONFLICT"@
        }),
{
    reveal_strlit("NODE_CONFLICT");
    reveal_strlit("CONTENT_CONFLICT");
    reveal_strlit("STRUCTURE_CONFLICT");
    reveal_strlit("RELATION_CONFLICT");
    reveal_strlit("REVISION_CONFLICT");
    reveal_strlit(" (");
    reveal_strlit(")");
    reveal_strlit("CONFLICT");
    let k = crate::conflict::conflict_kind_text(c.kind);
    let line = c.detail + " ("@ + k + ")"@;
    let i = c.detail.len() + 2 + k.len() - 8;
    assert(line.subrange(i, i + 8) =~= "CONFLICT"@);
}

/// `s` with its first letter in upper case (ASCII).
pub open spec fn capitalized(s: Seq<char>) -> Seq<char> {
    if s.len() > 0 && 'a' <= s[0] && s[0] <= 'z' {
        seq![((s[0] as u32) - 32) as char] + s.drop_first()
    } else {
        s
    }
}

/// A requirement, decision, problem or solution exports to Markdown as a
/// quoted callout labelled with the node's own kind, its name capitalized
/// (a decision reads `> **Decision** — ...`), followed by its trimmed
/// content.
pub proof fn law_markdown_callout_names_its_kind(n: NodeV, depth: nat)
    requires
        n.kind == NodeKind::Requirement || n.kind == NodeKind::Decision || n.kind == NodeKind::Problem
            || n.kind == NodeKind::Solution,
    ensures
        md_body(n, depth) == "> **"@ + capitalized(kind_text(n.kind)) + "** \u{2014} "@ + trim(n.content) + "\n\n"@,
{
    reveal_strlit("requirement");
    reveal_strlit("Requirement");
    reveal_strlit("decision");
    reveal_strlit("Decision");
    reveal_strlit("problem");
    reveal_strlit("Problem");
    reveal_strlit("solution");
    reveal_strlit("Solution");
    let k = kind_text(n.kind);
    assert(capitalized(k) =~= match n.kind {
        NodeKind::Requirement => "Requirement"@,
        NodeKind::Decision => "Decision"@,
        NodeKind::Problem => "Problem"@,
        _ => "Solution"@,
    });
}

/// A code node renders to HTML as a `<pre>` element, carrying the node's
/// id, around a `<code>` element holding its escaped content, on one line
/// at the node's indentation.
pub proof fn law_code_renders_preformatted(n: NodeV, depth: nat, kids: Seq<char>)
    requires
        n.kind == NodeKind::Code,
    ensures
        element_html(n, depth, kids) == indent_of(depth) + "<pre id=\""@ + escape_spec(n.id) + "\"><code>"@
            + escape_spec(n.content) + "</code></pre>\n"@,
{
    reveal_strlit("<pre");
    reveal_strlit(" id=\"");
    reveal_strlit("\"");
    reveal_strlit("><code>");
    reveal_strlit("<pre id=\"");
    reveal_strlit("\"><code>");
    let ind = indent_of(depth);
    let a = escape_spec(n.id);
    let c = escape_spec(n.content);
    assert(ind + "<pre"@ + (" id=\""@ + a + "\""@) + "><code>"@ + c + "</code></pre>\n"@
        =~= ind + "<pre id=\""@ + a + "\"><code>"@ + c + "</code></pre>\n"@);
}

/// A link operation adds exactly one relation, directed from the first of
/// its `targets` (the source) to its `target`, under the id naming the two
/// in that order; the relations before it stay as they were.
pub proof fn law_link_points_from_source_to_target(s: Seq<DocTablesV>, doc: Seq<char>, op: OperationV, ts: Seq<char>)
    requires
        op.op_type == OperationType::Link,
        apply_spec(s, doc, op, ts) is Ok,
    ensures
        ({
            let t = doc_tables(s, doc)->0;
            let t2 = apply_spec(s, doc, op, ts)->Ok_0.0;
            &&& op.targets.len() > 0 && op.target is Some
            &&& t2.relations.len() == t.relations.len() + 1
            &&& t2.relations.take(t.relations.len() as int) == t.relations
            &&& t2.relations.last().source == op.targets[0]
            &&& t2.relations.last().target == op.target->0
            &&& t2.relations.last().id == relation_id(op.targets[0], op.target->0)
        }),
{
    let t = doc_tables(s, doc)->0;
    let head = precheck_spec(s, doc, op)->Ok_0;
    let rev = next_revision(t);
    let t1 = builtin_spec(op.op_type, t, op, rev)->Ok_0;
    let branch = next_branch(t, op, head);
    let c1 = DocTablesV { operations: t1.operations.push(operation_record(op, ts)), ..t1 };
    let c2 = advance_head_spec(c1, rev);
    let c3 = DocTablesV {
        revisions: c2.revisions.push(RevisionRowV {
            rev: crate::apply::new_revision(op, rev, branch, ts),
            is_head: true,
            parents: crate::store::parent_list(Some(op.expected_revision)),
        }),
        ..c2
    };
    lemma_save_snapshot(c3, rev, list_nodes_spec(c3), ts);
    let t2 = commit_spec(t1, op, rev, branch, ts);
    assert(t2.relations == t1.relations);
    let dst = op.target->0;
    let src = op.targets[0];
    let r = crate::engine::link_relation(op, src, dst);
    let ti = DocTablesV { relations: t.relations.push(r), ..t };
    assert(t1.relations == ti.relations);
    assert(ti.relations.take(t.relations.len() as int) =~= t.relations);
}

/// Inserting split nodes keeps the rows there were and adds after them;
/// it succeeds only where the first new id is not taken.
proof fn lemma_splits_extend(t: DocTablesV, src: NodeV, ids: Seq<Seq<char>>, k: nat)
    requires
        insert_splits(t, src, ids, k) is Ok,
    ensures
        insert_splits(t, src, ids, k)->Ok_0.nodes.len() >= t.nodes.len(),
        forall|i: int| 0 <= i < t.nodes.len() ==> #[trigger] insert_splits(t, src, ids, k)->Ok_0.nodes[i] == t.nodes[i],
        k >= 1 ==> !has_node(t, ids[0]),
    decreases k,
{
    if k > 0 {
        lemma_splits_extend(t, src, ids, (k - 1) as nat);
    }
}

/// Splitting a node hands its children to the first of the new nodes, the
/// one that takes over its content: every node that was a child of the
/// split node is still there, unchanged but for its parent, which is now
/// the first target; no node is left under the split node.
pub proof fn law_split_children_follow_first_target(s: Seq<DocTablesV>, doc: Seq<char>, op: OperationV, ts: Seq<char>)
    requires
        op.op_type == OperationType::Split,
        apply_spec(s, doc, op, ts) is Ok,
    ensures
        ({
            let t = doc_tables(s, doc)->0;
            let t2 = apply_spec(s, doc, op, ts)->Ok_0.0;
            let source = op.target->0;
            let first = op.targets[0];
            &&& op.target is Some && op.targets.len() > 0
            &&& forall|i: int| 0 <= i < t.nodes.len() && t.nodes[i].node.parent == Some(source) && t.nodes[i].node.id != source
                ==> exists|j: int| 0 <= j < t2.nodes.len()
                    && #[trigger] t2.nodes[j].node == (NodeV { parent: Some(first), ..t.nodes[i].node })
            &&& forall|j: int| 0 <= j < t2.nodes.len() ==> #[trigger] t2.nodes[j].node.parent != Some(source)
        }),
{
    let t = doc_tables(s, doc)->0;
    let head = precheck_spec(s, doc, op)->Ok_0;
    let rev = next_revision(t);
    let t1 = builtin_spec(op.op_type, t, op, rev)->Ok_0;
    let branch = next_branch(t, op, head);
    let c1 = DocTablesV { operations: t1.operations.push(operation_record(op, ts)), ..t1 };
    let c2 = advance_head_spec(c1, rev);
    let c3 = DocTablesV {
        revisions: c2.revisions.push(RevisionRowV {
            rev: crate::apply::new_revision(op, rev, branch, ts),
            is_head: true,
            parents: crate::store::parent_list(Some(op.expected_revision)),
        }),
        ..c2
    };
    lemma_save_snapshot(c3, rev, list_nodes_spec(c3), ts);
    let t2 = commit_spec(t1, op, rev, branch, ts);
    assert(t2.nodes == t1.nodes);
    let source = op.target->0;
    let first = op.targets[0];
    let src = get_node_spec(t, source)->0;
    let ts1 = insert_splits(t, src, op.targets, op.targets.len())->Ok_0;
    lemma_splits_extend(t, src, op.targets, op.targets.len());
    crate::store::lemma_node_pos(t.nodes, source);
    assert(first != source);
    let pred = |r: NodeRowV| r.node.id != source;
    let d = ts1.nodes.filter(pred);
    let f = |r: NodeRowV| if r.node.parent == Some(source) {
        node_row_of(NodeV { parent: Some(first), ..r.node })
    } else {
        r
    };
    assert(t1.nodes == d.map_values(f));
    assert forall|i: int| 0 <= i < t.nodes.len() && t.nodes[i].node.parent == Some(source) && t.nodes[i].node.id != source
        implies exists|j: int| 0 <= j < t2.nodes.len()
            && #[trigger] t2.nodes[j].node == (NodeV { parent: Some(first), ..t.nodes[i].node }) by {
        assert(ts1.nodes[i] == t.nodes[i]);
        ts1.nodes.lemma_filter_contains(pred, i);
        let j = choose|j: int| 0 <= j < d.len() && d[j] == ts1.nodes[i];
        assert(t2.nodes[j].node == (NodeV { parent: Some(first), ..t.nodes[i].node }));
    }
    assert forall|j: int| 0 <= j < t2.nodes.len() implies #[trigger] t2.nodes[j].node.parent != Some(source) by {
        assert(t2.nodes[j] == f(d[j]));
    }
}

proof fn lemma_last_with_found(nodes: Seq<NodeV>, id: Seq<char>)
    ensures
        last_with(nodes, id) matches Some(x) ==> x.id == id && exists|i: int| 0 <= i < nodes.len() && nodes[i] == x,
    decreases nodes.len(),
{
    if nodes.len() > 0 {
        lemma_last_with_found(nodes.drop_last(), id);
        if nodes.last().id != id && last_with(nodes.drop_last(), id) is Some {
            let x = last_with(nodes.drop_last(), id)->0;
            let i = choose|i: int| 0 <= i < nodes.drop_last().len() && nodes.drop_last()[i] == x;
            assert(nodes[i] == x);
        }
    }
}

proof fn lemma_insert_id_keeps(s: Seq<Seq<char>>, x: Seq<char>)
    ensures
        insert_id(s, x).contains(x),
        forall|y: Seq<char>| s.contains(y) ==> #[trigger] insert_id(s, x).contains(y),
    decreases s.len(),
{
    if s.len() > 0 && s[0] != x && !text_lt(x, s[0]) {
        lemma_insert_id_keeps(s.drop_first(), x);
        let r = insert_id(s, x);
        assert(r == seq![s[0]] + insert_id(s.drop_first(), x));
        let j = choose|j: int| 0 <= j < insert_id(s.drop_first(), x).len() && insert_id(s.drop_first(), x)[j] == x;
        assert(r[j + 1] == x);
        assert forall|y: Seq<char>| s.contains(y) implies #[trigger] r.contains(y) by {
            let i = choose|i: int| 0 <= i < s.len() && s[i] == y;
            if i == 0 {
                assert(r[0] == y);
            } else {
                assert(s.drop_first()[i - 1] == y);
                assert(s.drop_first().contains(y));
                assert(insert_id(s.drop_first(), x).contains(y));
                let k = choose|k: int| 0 <= k < insert_id(s.drop_first(), x).len() && insert_id(s.drop_first(), x)[k] == y;
                assert(r[k + 1] == y);
            }
        }
    } else if s.len() > 0 && s[0] != x {
        let r = insert_id(s, x);
        assert(r[0] == x);
        assert forall|y: Seq<char>| s.contains(y) implies #[trigger] r.contains(y) by {
            let i = choose|i: int| 0 <= i < s.len() && s[i] == y;
            assert(r[i + 1] == y);
        }
    } else if s.len() > 0 {
        assert(insert_id(s, x)[0] == x);
    } else {
        assert(insert_id(s, x)[0] == x);
    }
}

/// Every node's id is among the sorted ids.
proof fn lemma_sorted_ids_has(nodes: Seq<NodeV>, i: int)
    requires
        0 <= i < nodes.len(),
    ensures
        sorted_ids(nodes).contains(nodes[i].id),
    decreases nodes.len(),
{
    lemma_insert_id_keeps(sorted_ids(nodes.drop_last()), nodes.last().id);
    if i < nodes.len() - 1 {
        lemma_sorted_ids_has(nodes.drop_last(), i);
        assert(nodes.drop_last()[i] == nodes[i]);
    }
}

/// A node id that one of the three sides has is a merge key.
proof fn lemma_key_of_side(base: Seq<NodeV>, main: Seq<NodeV>, src: Seq<NodeV>, id: Seq<char>)
    ensures
        (last_with(base, id) is Some || last_with(main, id) is Some || last_with(src, id) is Some)
            ==> merge_keys(base, main, src).contains(id),
{
    let all = base + main + src;
    lemma_last_with_found(base, id);
    lemma_last_with_found(main, id);
    lemma_last_with_found(src, id);
    if last_with(base, id) is Some {
        let i = choose|i: int| 0 <= i < base.len() && base[i] == last_with(base, id)->0;
        assert(all[i] == base[i]);
        lemma_sorted_ids_has(all, i);
    } else if last_with(main, id) is Some {
        let i = choose|i: int| 0 <= i < main.len() && main[i] == last_with(main, id)->0;
        assert(all[base.len() + i] == main[i]);
        lemma_sorted_ids_has(all, base.len() + i);
    } else if last_with(src, id) is Some {
        let i = choose|i: int| 0 <= i < src.len() && src[i] == last_with(src, id)->0;
        assert(all[base.len() + main.len() + i] == src[i]);
        lemma_sorted_ids_has(all, base.len() + main.len() + i);
    }
}

/// The node the three-way pick keeps for `id`, if any.
pub open spec fn picked(base: Seq<NodeV>, main: Seq<NodeV>, src: Seq<NodeV>, id: Seq<char>) -> Option<NodeV> {
    match pick_at(base, main, src, id) {
        Some(Some(n)) => Some(n),
        _ => None,
    }
}

proof fn lemma_merged_last(keys: Seq<Seq<char>>, base: Seq<NodeV>, main: Seq<NodeV>, src: Seq<NodeV>, id: Seq<char>)
    ensures
        last_with(merged_nodes(keys, base, main, src), id) == if keys.contains(id) { picked(base, main, src, id) } else { None },
    decreases keys.len(),
{
    if keys.len() > 0 {
        let kl = keys.last();
        let rest = merged_nodes(keys.drop_last(), base, main, src);
        lemma_merged_last(keys.drop_last(), base, main, src, id);
        lemma_last_with_found(main, kl);
        lemma_last_with_found(src, kl);
        assert(keys.contains(id) <==> (keys.drop_last().contains(id) || kl == id)) by {
            if keys.contains(id) && kl != id {
                let i = choose|i: int| 0 <= i < keys.len() && keys[i] == id;
                assert(keys.drop_last()[i] == id);
            }
            if keys.drop_last().contains(id) {
                let i = choose|i: int| 0 <= i < keys.drop_last().len() && keys.drop_last()[i] == id;
                assert(keys[i] == id);
            }
            if kl == id {
                assert(keys[keys.len() - 1] == id);
            }
        }
        match pick_at(base, main, src, kl) {
            Some(Some(n)) => {
                assert(n.id == kl);
                let out = rest.push(n);
                assert(out.last() == n);
                assert(out.drop_last() =~= rest);
                assert(merged_nodes(keys, base, main, src) == out);
            },
            _ => {
                assert(merged_nodes(keys, base, main, src) == rest);
            },
        }
    }
}

proof fn lemma_changed_has(keys: Seq<Seq<char>>, base: Seq<NodeV>, main: Seq<NodeV>, src: Seq<NodeV>, id: Seq<char>)
    requires
        keys.contains(id),
        pick_at(base, main, src, id) matches Some(r) && !opt_node_equal(r, last_with(main, id)),
    ensures
        changed_ids(keys, base, main, src).contains(id),
    decreases keys.len(),
{
    let rest = changed_ids(keys.drop_last(), base, main, src);
    if keys.last() == id {
        assert(changed_ids(keys, base, main, src) == rest.push(id));
        assert(rest.push(id)[rest.len() as int] == id);
    } else {
        let i = choose|i: int| 0 <= i < keys.len() && keys[i] == id;
        assert(keys.drop_last()[i] == id);
        lemma_changed_has(keys.drop_last(), base, main, src, id);
        let j = choose|j: int| 0 <= j < rest.len() && rest[j] == id;
        let out = changed_ids(keys, base, main, src);
        assert(out == rest || out == rest.push(keys.last()));
        assert(out[j] == id);
    }
}

proof fn lemma_conflict_has(keys: Seq<Seq<char>>, base: Seq<NodeV>, main: Seq<NodeV>, src: Seq<NodeV>, id: Seq<char>)
    requires
        keys.contains(id),
        pick_at(base, main, src, id) is None,
    ensures
        conflict_ids(keys, base, main, src).contains(id),
    decreases keys.len(),
{
    let rest = conflict_ids(keys.drop_last(), base, main, src);
    if keys.last() == id {
        assert(conflict_ids(keys, base, main, src)[rest.len() as int] == id);
    } else {
        let i = choose|i: int| 0 <= i < keys.len() && keys[i] == id;
        assert(keys.drop_last()[i] == id);
        lemma_conflict_has(keys.drop_last(), base, main, src, id);
        let j = choose|j: int| 0 <= j < rest.len() && rest[j] == id;
        let out = conflict_ids(keys, base, main, src);
        assert(out == rest || out == rest.push(keys.last()));
        assert(out[j] == id);
    }
}

/// The three-way merge, node id by node id, against the common base:
/// where main left a node as it was in the base and the branch changed it
/// (added, edited or removed it), the merged nodes hold the branch's version
/// and the id counts as changed; where the branch left it as it was, main's
/// version stays; where both sides changed it, each their own way, the id is
/// a conflict.
pub proof fn law_merge_takes_one_sided_changes(base: Seq<NodeV>, main: Seq<NodeV>, src: Seq<NodeV>, id: Seq<char>)
    ensures
        ({
            let keys = merge_keys(base, main, src);
            let merged = merged_nodes(keys, base, main, src);
            let b = last_with(base, id);
            let m = last_with(main, id);
            let s = last_with(src, id);
            &&& opt_node_equal(m, b) && !opt_node_equal(s, b) && !opt_node_equal(m, s) ==> last_with(merged, id) == s
            &&& opt_node_equal(m, b) && !opt_node_equal(s, b) && !opt_node_equal(m, s) && !opt_node_equal(s, m)
                ==> changed_ids(keys, base, main, src).contains(id)
            &&& opt_node_equal(s, b) ==> last_with(merged, id) == m
            &&& !opt_node_equal(m, b) && !opt_node_equal(s, b) && !opt_node_equal(m, s)
                ==> conflict_ids(keys, base, main, src).contains(id)
        }),
{
    let keys = merge_keys(base, main, src);
    let b = last_with(base, id);
    let m = last_with(main, id);
    let s = last_with(src, id);
    lemma_key_of_side(base, main, src, id);
    lemma_merged_last(keys, base, main, src, id);
    if opt_node_equal(m, b) && !opt_node_equal(s, b) && !opt_node_equal(m, s) && !opt_node_equal(s, m) {
        assert(b is Some || m is Some || s is Some);
        lemma_changed_has(keys, base, main, src, id);
    }
    if !opt_node_equal(m, b) && !opt_node_equal(s, b) && !opt_node_equal(m, s) {
        assert(b is Some || m is Some || s is Some);
        lemma_conflict_has(keys, base, main, src, id);
    }
    if opt_node_equal(s, b) && !keys.contains(id) {
        assert(m is None);
    }
}

} // verus!
