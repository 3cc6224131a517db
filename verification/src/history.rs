//! Reverting never deletes history: it restores the live nodes of an earlier
//! revision and records that as a brand-new head revision.

use vstd::prelude::*;
use crate::engine::change_id;
use crate::id::{content_hash, content_hash_of, revision_text, OpId, RevisionId};
use crate::model::{Change, ChangeType, ChangeV, HashRef, OperationType, Revision, RevisionV};
use crate::node::{Node, NodeV};
use crate::order::{text_less, text_lt};
use crate::provenance::Provenance;
use crate::store::{
    advance_head_spec, doc_index, doc_tables, first_pos, head_spec, insert_change_spec,
    insert_node_spec, insert_revision_spec, lemma_first_pos, next_seq_spec, nodes_view, now,
    list_nodes_spec, op_exists, revision_row_spec, save_snapshot_spec, rev_is, snapshot_spec, unique_operations_msg, with_tables,
    DocTables, DocTablesV, OperationRecord, OperationRecordV, Store, StoreError, StoreErrorV,
};
use crate::text::{opt_str_view, owned, str_eq, strs_view, zero_padded, zero_padded_string};

verus! {

/// Why a revert was refused.
#[derive(Debug)]
pub enum RevertError {
    Store(StoreError),
    /// The target is the current head (or there is no head to revert from).
    RevertToHead,
    /// The target revision, or its snapshot, does not exist.
    TargetNotFound(String),
}

pub enum RevertErrorV {
    Store(StoreErrorV),
    RevertToHead,
    TargetNotFound(Seq<char>),
}

impl View for RevertError {
    type V = RevertErrorV;

    open spec fn view(&self) -> RevertErrorV {
        match self {
            RevertError::Store(e) => RevertErrorV::Store(e@),
            RevertError::RevertToHead => RevertErrorV::RevertToHead,
            RevertError::TargetNotFound(m) => RevertErrorV::TargetNotFound(m@),
        }
    }
}

/// The human-readable message of a refused revert.
pub open spec fn revert_error_text(e: RevertErrorV) -> Seq<char> {
    match e {
        RevertErrorV::Store(e) => crate::engine::store_error_text(e),
        RevertErrorV::RevertToHead => "cannot revert to head revision"@,
        RevertErrorV::TargetNotFound(m) => "revert target not found: "@ + m,
    }
}

impl RevertError {
    /// The human-readable message.
    pub fn message(&self) -> (r: String)
        ensures
            r@ == revert_error_text(self@),
    {
        match self {
            RevertError::Store(e) => e.message(),
            RevertError::RevertToHead => owned("cannot revert to head revision"),
            RevertError::TargetNotFound(m) => {
                let mut s = owned("revert target not found: ");
                s.append(m.as_str());
                s
            },
        }
    }
}

/// A successful revert: the new head, the synthetic operation, the target and
/// the ids of the restored nodes in ascending order.
#[derive(Debug)]
pub struct RevertOutcome {
    pub new_revision: RevisionId,
    pub op_id: OpId,
    pub target_revision: RevisionId,
    pub nodes_touched: Vec<String>,
}

/// `s` with `x` added at its place in ascending text order, unless present.
pub open spec fn insert_id(s: Seq<Seq<char>>, x: Seq<char>) -> Seq<Seq<char>>
    decreases s.len(),
{
    if s.len() == 0 {
        seq![x]
    } else if s[0] == x {
        s
    } else if text_lt(x, s[0]) {
        seq![x] + s
    } else {
        seq![s[0]] + insert_id(s.drop_first(), x)
    }
}

/// The distinct ids of `nodes` in ascending text order.
pub open spec fn sorted_ids(nodes: Seq<NodeV>) -> Seq<Seq<char>>
    decreases nodes.len(),
{
    if nodes.len() == 0 {
        Seq::empty()
    } else {
        insert_id(sorted_ids(nodes.drop_last()), nodes.last().id)
    }
}

/// `OP-RVT-{seq:03}`.
pub open spec fn revert_op_id(seq: nat) -> Seq<char> {
    "OP-RVT-"@ + zero_padded(seq, 3)
}

/// Inserting the first `k` of `nodes` in order, stopping at the first refusal.
pub open spec fn insert_nodes_spec(t: DocTablesV, nodes: Seq<NodeV>, k: nat) -> Result<DocTablesV, StoreErrorV>
    decreases k,
{
    if k == 0 {
        Ok(t)
    } else {
        match insert_nodes_spec(t, nodes, (k - 1) as nat) {
            Err(e) => Err(e),
            Ok(t1) => insert_node_spec(t1, nodes[k - 1]),
        }
    }
}

/// The change recording that node `n` was restored by revision `rev`.
pub open spec fn revert_change(rev: Seq<char>, target: Seq<char>, n: NodeV) -> ChangeV {
    ChangeV {
        id: change_id(rev, n.id),
        revision: rev,
        node: n.id,
        change_type: ChangeType::Revert,
        before: None,
        after: Some(content_hash_of(n.content)),
        summary: Some("revert to "@ + target),
    }
}

/// Recording the restoration of the first `k` of `nodes`.
pub open spec fn insert_revert_changes(t: DocTablesV, rev: Seq<char>, target: Seq<char>, nodes: Seq<NodeV>, k: nat) -> Result<DocTablesV, StoreErrorV>
    decreases k,
{
    if k == 0 {
        Ok(t)
    } else {
        match insert_revert_changes(t, rev, target, nodes, (k - 1) as nat) {
            Err(e) => Err(e),
            Ok(t1) => insert_change_spec(t1, revert_change(rev, target, nodes[k - 1])),
        }
    }
}

pub proof fn lemma_insert_nodes_err(t: DocTablesV, nodes: Seq<NodeV>, i: nat, k: nat)
    requires
        i <= k,
        insert_nodes_spec(t, nodes, i) is Err,
    ensures
        insert_nodes_spec(t, nodes, k) == insert_nodes_spec(t, nodes, i),
    decreases k,
{
    if k > i {
        lemma_insert_nodes_err(t, nodes, i, (k - 1) as nat);
    }
}

pub proof fn lemma_revert_changes_err(t: DocTablesV, rev: Seq<char>, target: Seq<char>, nodes: Seq<NodeV>, i: nat, k: nat)
    requires
        i <= k,
        insert_revert_changes(t, rev, target, nodes, i) is Err,
    ensures
        insert_revert_changes(t, rev, target, nodes, k) == insert_revert_changes(t, rev, target, nodes, i),
    decreases k,
{
    if k > i {
        lemma_revert_changes_err(t, rev, target, nodes, i, (k - 1) as nat);
    }
}

/// The audit record of the revert from `head` to `target`.
pub open spec fn revert_record(op_id: Seq<char>, head: Seq<char>, target: Seq<char>, reason: Option<Seq<char>>, ts: Seq<char>) -> OperationRecordV {
    OperationRecordV {
        id: op_id,
        op_type: OperationType::Revert,
        target: None,
        expected_revision: head,
        target_revision: Some(target),
        actor: crate::provenance::unnamed_human(),
        patch: None,
        reason,
        created_at: ts,
    }
}

/// The tables after reverting to `target` (whose snapshot is `nodes`) from
/// `head`: live nodes replaced, one change per restored node, the operation
/// record, the new head revision stamped `ts` and its snapshot of the live
/// nodes.
pub open spec fn revert_tables(
    t: DocTablesV,
    head: Seq<char>,
    target: Seq<char>,
    nodes: Seq<NodeV>,
    reason: Option<Seq<char>>,
    ts: Seq<char>,
) -> Result<DocTablesV, RevertErrorV> {
    let seq = next_seq_spec(t);
    let rev = revision_text(seq);
    let op_id = revert_op_id(seq);
    match insert_nodes_spec(DocTablesV { nodes: Seq::empty(), ..t }, nodes, nodes.len()) {
        Err(e) => Err(RevertErrorV::Store(e)),
        Ok(t1) => match insert_revert_changes(t1, rev, target, nodes, nodes.len()) {
            Err(e) => Err(RevertErrorV::Store(e)),
            Ok(t2) => if op_exists(t2, op_id) {
                Err(RevertErrorV::Store(StoreErrorV::Constraint(unique_operations_msg())))
            } else {
                let t3 = advance_head_spec(DocTablesV { operations: t2.operations.push(revert_record(op_id, head, target, reason, ts)), ..t2 }, rev);
                match insert_revision_spec(t3, RevisionV {
                    id: rev,
                    parent: Some(head),
                    operation: op_id,
                    created_at: ts,
                    message: reason,
                    branch: None,
                }, true) {
                    Err(e) => Err(RevertErrorV::Store(e)),
                    Ok(t4) => Ok(save_snapshot_spec(t4, rev, list_nodes_spec(t4), ts)),
                }
            },
        },
    }
}

/// Reverting document `doc` to `target`: the new tables, or the refusal.
pub open spec fn revert_spec(
    s: Seq<DocTablesV>,
    doc: Seq<char>,
    target: Seq<char>,
    reason: Option<Seq<char>>,
    ts: Seq<char>,
) -> Result<DocTablesV, RevertErrorV> {
    match doc_tables(s, doc) {
        None => Err(RevertErrorV::TargetNotFound(target)),
        Some(t) => if revision_row_spec(t, target) is None {
            Err(RevertErrorV::TargetNotFound(target))
        } else {
            match head_spec(t) {
                None => Err(RevertErrorV::RevertToHead),
                Some(h) => if h == target {
                    Err(RevertErrorV::RevertToHead)
                } else {
                    match snapshot_spec(t, target) {
                        None => Err(RevertErrorV::TargetNotFound("no snapshot for "@ + target)),
                        Some(nodes) => revert_tables(t, h, target, nodes, reason, ts),
                    }
                }
            }
        },
    }
}

/// Insert `x` into the ascending, duplicate-free list `out`.
pub fn insert_sorted_id(out: &mut Vec<String>, x: &str)
    ensures
        strs_view(final(out)@) == insert_id(strs_view(old(out)@), x@),
{
    let ghost o0 = strs_view(out@);
    let ghost target = insert_id(o0, x@);
    let mut p: usize = 0;
    let mut present = false;
    let mut stop = false;
    assert(o0.skip(0) =~= o0);
    assert(o0.take(0) + insert_id(o0.skip(0), x@) =~= target);
    while p < out.len() && !stop
        invariant
            p <= out@.len(),
            o0 == strs_view(out@),
            target == insert_id(o0, x@),
            !stop ==> !present && target == o0.take(p as int) + insert_id(o0.skip(p as int), x@),
            stop && present ==> target == o0,
            stop && !present ==> p < o0.len() && target == o0.insert(p as int, x@),
        decreases out@.len() - p, if stop { 0int } else { 1int },
    {
        let ghost rest = o0.skip(p as int);
        assert(rest[0] == out@[p as int]@);
        if str_eq(out[p].as_str(), x) {
            present = true;
            stop = true;
            assert(insert_id(rest, x@) == rest);
            assert(o0.take(p as int) + rest =~= o0);
        } else if text_less(x, out[p].as_str()) {
            stop = true;
            assert(insert_id(rest, x@) == seq![x@] + rest);
            assert(o0.take(p as int) + (seq![x@] + rest) =~= o0.insert(p as int, x@));
        } else {
            assert(rest.drop_first() =~= o0.skip(p + 1));
            assert(o0.take(p as int).push(rest[0]) =~= o0.take(p + 1));
            assert(o0.take(p + 1) + insert_id(rest.drop_first(), x@) =~= o0.take(p as int) + insert_id(rest, x@));
            p = p + 1;
        }
    }
    if !present {
        out.insert(p, owned(x));
        proof {
            if !stop {
                assert(o0.skip(p as int) =~= Seq::<Seq<char>>::empty());
                assert(o0.take(p as int) + seq![x@] =~= o0.insert(p as int, x@));
            }
            assert(strs_view(out@) =~= o0.insert(p as int, x@));
        }
    }
}

/// The distinct ids of `nodes`, ascending.
pub fn touched_ids(nodes: &Vec<Node>) -> (r: Vec<String>)
    ensures
        strs_view(r@) == sorted_ids(nodes_view(nodes@)),
{
    let ghost all = nodes_view(nodes@);
    let mut out: Vec<String> = Vec::new();
    let mut k: usize = 0;
    while k < nodes.len()
        invariant
            k <= nodes@.len(),
            all == nodes_view(nodes@),
            strs_view(out@) == sorted_ids(all.take(k as int)),
        decreases nodes@.len() - k,
    {
        let x = nodes[k].id.as_str();
        proof {
            assert(all.take(k + 1).drop_last() =~= all.take(k as int));
            assert(all.take(k + 1).last().id == x@);
        }
        insert_sorted_id(&mut out, x);
        k = k + 1;
    }
    assert(all.take(nodes@.len() as int) =~= all);
    out
}

/// Restore `nodes` as the live nodes of `t` and record the revert.
fn revert_work(
    t: &mut DocTables,
    head: &str,
    target: &RevisionId,
    nodes: &Vec<Node>,
    rev: &RevisionId,
    op_id: &OpId,
    reason: Option<String>,
) -> (r: Result<(), RevertError>)
    requires
        rev@ == revision_text(next_seq_spec(old(t)@)),
        op_id@ == revert_op_id(next_seq_spec(old(t)@)),
    ensures
        match revert_tables(old(t)@, head@, target@, nodes_view(nodes@), opt_str_view(reason), final(t)@.revisions.last().rev.created_at) {
            Err(e) => r matches Err(e2) && e2@ == e,
            Ok(t4) => r is Ok && final(t)@ == t4,
        },
{
    let ghost nv = nodes_view(nodes@);
    let ghost reason_v = opt_str_view(reason);
    t.nodes = Vec::new();
    let ghost t0 = t@;
    assert(t0.nodes =~= Seq::<crate::store::NodeRowV>::empty());
    assert(t0 =~= DocTablesV { nodes: Seq::empty(), ..old(t)@ });
    let mut i: usize = 0;
    while i < nodes.len()
        invariant
            i <= nodes@.len(),
            nv == nodes_view(nodes@),
            t0 == (DocTablesV { nodes: Seq::empty(), ..old(t)@ }),
            insert_nodes_spec(t0, nv, i as nat) == Ok::<DocTablesV, StoreErrorV>(t@),
        decreases nodes@.len() - i,
    {
        assert(nv[i as int] == nodes@[i as int]@);
        let ghost tb = t@;
        match t.insert_node(&nodes[i]) {
            Ok(()) => {},
            Err(e) => {
                proof {
                    assert(insert_nodes_spec(t0, nv, (i + 1) as nat) == insert_node_spec(tb, nv[i as int]));
                    lemma_insert_nodes_err(t0, nv, (i + 1) as nat, nv.len());
                }
                return Err(RevertError::Store(e));
            },
        }
        i = i + 1;
    }
    let ghost t1 = t@;
    let mut k: usize = 0;
    while k < nodes.len()
        invariant
            k <= nodes@.len(),
            nv == nodes_view(nodes@),
            t0 == (DocTablesV { nodes: Seq::empty(), ..old(t)@ }),
            rev@ == revision_text(next_seq_spec(old(t)@)),
            insert_nodes_spec(t0, nv, nv.len()) == Ok::<DocTablesV, StoreErrorV>(t1),
            insert_revert_changes(t1, rev@, target@, nv, k as nat) == Ok::<DocTablesV, StoreErrorV>(t@),
        decreases nodes@.len() - k,
    {
        let n = &nodes[k];
        assert(nv[k as int] == n@);
        let mut id = owned("CH-");
        id.append(rev.as_str());
        id.append("-");
        id.append(n.id.as_str());
        let mut summary = owned("revert to ");
        summary.append(target.as_str());
        let ch = Change {
            id,
            revision: rev.clone(),
            node: n.id.clone(),
            change_type: ChangeType::Revert,
            before: None,
            after: Some(HashRef { hash: content_hash(n.content.as_str()) }),
            summary: Some(summary),
        };
        assert(ch@ == revert_change(rev@, target@, n@));
        let ghost tb = t@;
        match t.insert_change(ch) {
            Ok(()) => {},
            Err(e) => {
                proof {
                    assert(insert_revert_changes(t1, rev@, target@, nv, (k + 1) as nat) == insert_change_spec(tb, revert_change(rev@, target@, nv[k as int])));
                    lemma_revert_changes_err(t1, rev@, target@, nv, (k + 1) as nat, nv.len());
                }
                return Err(RevertError::Store(e));
            },
        }
        k = k + 1;
    }
    if t.has_operation(op_id.as_str()) {
        return Err(RevertError::Store(StoreError::Constraint(owned(
            "UNIQUE constraint failed: operations.doc_id, operations.id",
        ))));
    }
    let ts = now();
    let rec = OperationRecord {
        id: op_id.clone(),
        op_type: OperationType::Revert,
        target: None,
        expected_revision: RevisionId::new(head),
        target_revision: Some(target.clone()),
        actor: Provenance::human(None),
        patch: None,
        reason: crate::node::clone_opt_string(&reason),
        created_at: ts.clone(),
    };
    assert(rec@ == revert_record(op_id@, head@, target@, reason_v, ts@));
    let _ = t.insert_operation(rec);
    t.advance_head(rev.as_str());
    let revision = Revision {
        id: rev.clone(),
        parent: Some(RevisionId::new(head)),
        operation: op_id.clone(),
        created_at: ts.clone(),
        message: reason,
        branch: None,
    };
    match t.insert_revision(&revision, true) {
        Ok(()) => {
            let live = t.list_nodes();
            t.save_snapshot_at(rev.as_str(), &live, ts);
            Ok(())
        },
        Err(e) => Err(RevertError::Store(e)),
    }
}

/// The outcome `revert_to` promises for a revert of document `doc` to `target`.
pub open spec fn revert_post(
    r: Result<RevertOutcome, RevertError>,
    before: Seq<DocTablesV>,
    after: Seq<DocTablesV>,
    doc: Seq<char>,
    target: Seq<char>,
    reason: Option<Seq<char>>,
) -> bool {
    match revert_spec(before, doc, target, reason, after[doc_index(before, doc)].revisions.last().rev.created_at) {
        Err(e) => r matches Err(e2) && e2@ == e && after == before,
        Ok(t2) => {
            let t = doc_tables(before, doc)->0;
            r matches Ok(o) && after == with_tables(before, doc, t2)
                && o.new_revision@ == revision_text(next_seq_spec(t))
                && o.op_id@ == revert_op_id(next_seq_spec(t))
                && o.target_revision@ == target
                && strs_view(o.nodes_touched@) == sorted_ids(snapshot_spec(t, target)->0)
        },
    }
}

/// Revert document `doc_id` to `target_revision` as a new head revision.
pub fn revert_to(store: &mut Store, doc_id: &str, target_revision: RevisionId, reason: Option<String>) -> (r: Result<RevertOutcome, RevertError>)
    ensures
        revert_post(r, old(store)@, final(store)@, doc_id@, target_revision@, opt_str_view(reason)),
{
    let ghost s0 = store@;
    let t = match store.tables(doc_id) {
        Some(t) => t,
        None => {
            return Err(RevertError::TargetNotFound(owned(target_revision.as_str())));
        },
    };
    let target_rev = match t.get_revision(target_revision.as_str()) {
        Some(rv) => rv,
        None => {
            return Err(RevertError::TargetNotFound(owned(target_revision.as_str())));
        },
    };
    let head = match t.head_revision() {
        Some(h) => h,
        None => {
            return Err(RevertError::RevertToHead);
        },
    };
    if str_eq(head.as_str(), target_revision.as_str()) {
        return Err(RevertError::RevertToHead);
    }
    let seq = t.max_revision_seq();
    let new_rev = RevisionId::from_sequence(seq);
    let mut op_text = owned("OP-RVT-");
    op_text.append(zero_padded_string(seq, 3).as_str());
    let op_id = OpId::from_string(op_text);
    let nodes = match t.load_snapshot(target_revision.as_str()) {
        Some(v) => v,
        None => {
            let mut m = owned("no snapshot for ");
            m.append(target_revision.as_str());
            return Err(RevertError::TargetNotFound(m));
        },
    };
    let ghost t_view = t@;
    let (i, original) = match store.checkout_tables(doc_id) {
        Some(p) => p,
        None => {
            return Err(RevertError::RevertToHead);
        },
    };
    let mut work = original.clone_tables();
    let ghost reason_v = opt_str_view(reason);
    match revert_work(&mut work, head.as_str(), &target_revision, &nodes, &new_rev, &op_id, reason) {
        Ok(()) => {
            store.restore_tables(i, work);
            assert(store@[i as int] == work@);
            proof {
                lemma_first_pos(t_view.revisions, rev_is(target_revision@));
                assert(target_rev@.id == target_revision@);
            }
            Ok(RevertOutcome {
                new_revision: new_rev,
                op_id,
                target_revision: target_rev.id,
                nodes_touched: touched_ids(&nodes),
            })
        },
        Err(e) => {
            store.restore_tables(i, original);
            assert(store@ =~= s0);
            Err(e)
        },
    }
}

} // verus!
