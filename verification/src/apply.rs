//! Applying one operation: preconditions, the handler, then the operation
//! record, the new head revision and its snapshot, all or nothing.

use vstd::prelude::*;
use crate::check::{check_all, check_error_text, doc_check_all_spec, CheckError, CheckErrorV};
use crate::engine::{branch_name, resolve_branch_name, ApplyContext, ApplyError, ApplyErrorV};
use crate::handler::{builtin_spec, default_slot, slot, HandlerRegistry};
use crate::id::{revision_text, OpId, RevisionId};
use crate::model::{op_type_text, clone_opt_rev, Operation, OperationType, OperationV, Revision, RevisionV};
use crate::node::{clone_opt_id, clone_opt_string, opt_id_view};
use crate::store::{
    advance_head_spec, branch_spec, clone_opt_patch, doc_index, doc_tables, first_pos,
    lemma_first_pos, list_nodes_spec, next_seq_spec, now, op_exists, opt_patch_view, parent_list,
    rev_is, save_snapshot_spec, unique_operations_msg, unique_revisions_msg, with_tables,
    DocTables, DocTablesV, OperationRecord, OperationRecordV, RevisionRowV, Store, StoreError,
    StoreErrorV,
};
use crate::text::opt_str_view;
use crate::model::opt_rev_view;

verus! {

/// The result of a successful apply: the new revision and the operation id.
#[derive(Debug)]
pub struct ApplyOutcome {
    pub revision: RevisionId,
    pub op_id: OpId,
}

/// Any failure of running an operation: a failed check or a failed apply.
#[derive(Debug)]
pub enum OperationError {
    Check(CheckError),
    Apply(ApplyError),
}

pub type OperationResult<T> = Result<T, OperationError>;

pub open spec fn operation_error_text(e: OperationError) -> Seq<char> {
    match e {
        OperationError::Check(c) => "check failed: "@ + check_error_text(c@),
        OperationError::Apply(a) => "apply failed: "@ + crate::engine::apply_error_text(a@),
    }
}

impl OperationError {
    /// The human-readable message.
    pub fn message(&self) -> (r: String)
        ensures
            r@ == operation_error_text(*self),
    {
        match self {
            OperationError::Check(c) => {
                let mut s = crate::text::owned("check failed: ");
                s.append(c.message().as_str());
                s
            },
            OperationError::Apply(a) => {
                let mut s = crate::text::owned("apply failed: ");
                s.append(a.message().as_str());
                s
            },
        }
    }
}

/// A failed precondition, as the apply path reports it: conflicts pass
/// through, anything else becomes an integrity error carrying its message.
pub open spec fn precheck_spec(s: Seq<DocTablesV>, doc: Seq<char>, op: OperationV) -> Result<Seq<char>, ApplyErrorV> {
    match doc_check_all_spec(s, doc, op) {
        Ok(h) => Ok(h),
        Err(CheckErrorV::Conflict(c)) => Err(ApplyErrorV::Conflict(c)),
        Err(e) => Err(ApplyErrorV::Store(StoreErrorV::Integrity(check_error_text(e)))),
    }
}

/// The id of the revision the next applied operation creates.
pub open spec fn next_revision(t: DocTablesV) -> Seq<char> {
    revision_text(next_seq_spec(t))
}

/// The branch of the new revision: a branch operation's own name, else the
/// branch of the head revision it builds on.
pub open spec fn next_branch(t: DocTablesV, op: OperationV, head: Seq<char>) -> Option<Seq<char>> {
    if op.op_type == OperationType::Branch {
        branch_name(op)
    } else {
        branch_spec(t, head)
    }
}

/// The audit record of `op`, stamped `ts`.
pub open spec fn operation_record(op: OperationV, ts: Seq<char>) -> OperationRecordV {
    OperationRecordV {
        id: op.id,
        op_type: op.op_type,
        target: op.target,
        expected_revision: op.expected_revision,
        target_revision: op.target_revision,
        actor: op.actor@,
        patch: op.patch,
        reason: op.reason,
        created_at: ts,
    }
}

/// The revision `rev` that `op` creates on top of its expected revision.
pub open spec fn new_revision(op: OperationV, rev: Seq<char>, branch: Option<Seq<char>>, ts: Seq<char>) -> RevisionV {
    RevisionV {
        id: rev,
        parent: Some(op.expected_revision),
        operation: op.id,
        created_at: ts,
        message: op.reason,
        branch,
    }
}

/// Why the bookkeeping of an applied operation is refused: its id, or the id
/// of the revision it would create, is taken.
pub open spec fn commit_refusal(t: DocTablesV, op: OperationV, rev: Seq<char>) -> Option<ApplyErrorV> {
    if op_exists(t, op.id) {
        Some(ApplyErrorV::Store(StoreErrorV::Constraint(unique_operations_msg())))
    } else if first_pos(t.revisions, rev_is(rev)) >= 0 {
        Some(ApplyErrorV::Store(StoreErrorV::Constraint(unique_revisions_msg())))
    } else {
        None
    }
}

/// The bookkeeping of an applied operation: its record, the new revision as
/// the only head, and a snapshot of the live nodes under the new revision.
pub open spec fn commit_spec(t: DocTablesV, op: OperationV, rev: Seq<char>, branch: Option<Seq<char>>, ts: Seq<char>) -> DocTablesV {
    let t1 = DocTablesV { operations: t.operations.push(operation_record(op, ts)), ..t };
    let t2 = advance_head_spec(t1, rev);
    let t3 = DocTablesV {
        revisions: t2.revisions.push(RevisionRowV {
            rev: new_revision(op, rev, branch, ts),
            is_head: true,
            parents: parent_list(Some(op.expected_revision)),
        }),
        ..t2
    };
    save_snapshot_spec(t3, rev, list_nodes_spec(t3), ts)
}

/// The tables after the handler's result `handled` is committed.
pub open spec fn finish_spec(
    handled: Result<DocTablesV, ApplyErrorV>,
    op: OperationV,
    rev: Seq<char>,
    branch: Option<Seq<char>>,
    ts: Seq<char>,
) -> Result<DocTablesV, ApplyErrorV> {
    match handled {
        Err(e) => Err(e),
        Ok(t1) => match commit_refusal(t1, op, rev) {
            Some(e) => Err(e),
            None => Ok(commit_spec(t1, op, rev, branch, ts)),
        },
    }
}

/// What the registry's handler does with `op`: `None` when a handler a
/// caller registered decides.
pub open spec fn handled_spec(reg: Seq<(OperationType, bool)>, t: DocTablesV, op: OperationV, rev: Seq<char>) -> Option<Result<DocTablesV, ApplyErrorV>> {
    match slot(reg, op.op_type) {
        None => Some(Err(ApplyErrorV::UnknownOperation(op_type_text(op.op_type)))),
        Some(true) => Some(builtin_spec(op.op_type, t, op, rev)),
        Some(false) => None,
    }
}

/// Applying `op` to document `doc` with the built-in handlers, stamped
/// `ts`: the document's new tables and the new revision id.
pub open spec fn apply_spec(s: Seq<DocTablesV>, doc: Seq<char>, op: OperationV, ts: Seq<char>) -> Result<(DocTablesV, Seq<char>), ApplyErrorV> {
    match precheck_spec(s, doc, op) {
        Err(e) => Err(e),
        Ok(head) => {
            let t = doc_tables(s, doc)->0;
            let rev = next_revision(t);
            match finish_spec(builtin_spec(op.op_type, t, op, rev), op, rev, next_branch(t, op, head), ts) {
                Err(e) => Err(e),
                Ok(t2) => Ok((t2, rev)),
            }
        },
    }
}

/// The timestamp of the newest revision of document `doc` (found where it
/// was in `before`) in the store `after`.
pub open spec fn stamp(before: Seq<DocTablesV>, after: Seq<DocTablesV>, doc: Seq<char>) -> Seq<char> {
    after[doc_index(before, doc)].revisions.last().rev.created_at
}

/// `r` and the store `after` are what the specified result `res` says.
pub open spec fn outcome_post(
    r: Result<ApplyOutcome, ApplyError>,
    before: Seq<DocTablesV>,
    after: Seq<DocTablesV>,
    doc: Seq<char>,
    op: OperationV,
    res: Result<(DocTablesV, Seq<char>), ApplyErrorV>,
) -> bool {
    match res {
        Err(e) => r matches Err(e2) && e2@ == e && after == before,
        Ok((t2, rev)) => r matches Ok(o) && o.revision@ == rev && o.op_id@ == op.id && after == with_tables(before, doc, t2),
    }
}

impl DocTables {
    /// Record `op`, make `rev` the only head and snapshot the live nodes
    /// under it. Refused, with the tables unchanged, when `op`'s id or `rev`
    /// is taken.
    pub fn commit_operation(&mut self, op: &Operation, rev: &RevisionId, branch: Option<String>) -> (r: Result<(), ApplyError>)
        ensures
            match commit_refusal(old(self)@, op@, rev@) {
                Some(e) => r matches Err(e2) && e2@ == e && final(self)@ == old(self)@,
                None => r is Ok && final(self)@ == commit_spec(
                    old(self)@,
                    op@,
                    rev@,
                    opt_str_view(branch),
                    final(self)@.revisions.last().rev.created_at,
                ),
            },
    {
        if self.has_operation(op.id.as_str()) {
            return Err(ApplyError::Store(StoreError::Constraint(crate::text::owned(
                "UNIQUE constraint failed: operations.doc_id, operations.id",
            ))));
        }
        if self.find_revision(rev.as_str()).is_some() {
            return Err(ApplyError::Store(StoreError::Constraint(crate::text::owned(
                "UNIQUE constraint failed: revisions.doc_id, revisions.id",
            ))));
        }
        let ts = now();
        let ghost t0 = self@;
        let rec = OperationRecord {
            id: op.id.clone(),
            op_type: op.op_type,
            target: clone_opt_id(&op.target),
            expected_revision: op.expected_revision.clone(),
            target_revision: clone_opt_rev(&op.target_revision),
            actor: op.actor.clone(),
            patch: clone_opt_patch(&op.patch),
            reason: clone_opt_string(&op.reason),
            created_at: ts.clone(),
        };
        assert(rec@ == operation_record(op@, ts@));
        let _ = self.insert_operation(rec);
        let ghost t1 = self@;
        self.advance_head(rev.as_str());
        let ghost t2 = self@;
        proof {
            lemma_first_pos(t0.revisions, rev_is(rev@));
            lemma_first_pos(t2.revisions, rev_is(rev@));
            assert(t1.revisions == t0.revisions);
            if first_pos(t2.revisions, rev_is(rev@)) >= 0 {
                let p = first_pos(t2.revisions, rev_is(rev@));
                assert(t2.revisions[p].rev.id == t0.revisions[p].rev.id);
                assert(rev_is(rev@)(t0.revisions[p]));
            }
        }
        let revision = Revision {
            id: rev.clone(),
            parent: Some(op.expected_revision.clone()),
            operation: op.id.clone(),
            created_at: ts.clone(),
            message: clone_opt_string(&op.reason),
            branch,
        };
        assert(revision@ == new_revision(op@, rev@, opt_str_view(branch), ts@));
        let _ = self.insert_revision(&revision, true);
        let live = self.list_nodes();
        self.save_snapshot_at(rev.as_str(), &live, ts);
        Ok(())
    }
}

/// `r` and the store `after` are what applying `op` through a registry with
/// slots `reg` gives; where a handler a caller registered decides, what holds
/// whatever it did.
pub open spec fn registry_post(
    r: Result<ApplyOutcome, ApplyError>,
    before: Seq<DocTablesV>,
    after: Seq<DocTablesV>,
    doc: Seq<char>,
    op: OperationV,
    reg: Seq<(OperationType, bool)>,
) -> bool {
    match precheck_spec(before, doc, op) {
        Err(e) => r matches Err(e2) && e2@ == e && after == before,
        Ok(head) => {
            let t = doc_tables(before, doc)->0;
            let rev = next_revision(t);
            let branch = next_branch(t, op, head);
            match handled_spec(reg, t, op, rev) {
                Some(h) => outcome_post(r, before, after, doc, op, match finish_spec(h, op, rev, branch, stamp(before, after, doc)) {
                    Err(e) => Err(e),
                    Ok(t2) => Ok((t2, rev)),
                }),
                None => match r {
                    Err(_) => after == before,
                    Ok(o) => o.revision@ == rev && o.op_id@ == op.id && exists|t1: DocTablesV, ts: Seq<char>|
                        commit_refusal(t1, op, rev) is None && after == with_tables(before, doc, #[trigger] commit_spec(t1, op, rev, branch, ts)),
                },
            }
        },
    }
}

/// Apply `op` to document `doc_id` with the handler `registry` holds for its
/// type. Nothing changes unless every step succeeds.
pub fn apply_with_registry(store: &mut Store, doc_id: &str, op: Operation, registry: &HandlerRegistry) -> (r: Result<ApplyOutcome, ApplyError>)
    ensures
        registry_post(r, old(store)@, final(store)@, doc_id@, op@, registry@),
{
    let head = match check_all(store, doc_id, &op) {
        Ok(h) => h,
        Err(e) => {
            return Err(match e {
                CheckError::Conflict(c) => ApplyError::Conflict(c),
                other => ApplyError::Store(StoreError::Integrity(other.message())),
            });
        },
    };
    let ghost s0 = store@;
    let (i, original) = match store.checkout_tables(doc_id) {
        Some(p) => p,
        None => {
            return Err(ApplyError::MissingPatch);
        },
    };
    let seq = original.max_revision_seq();
    let new_rev = RevisionId::from_sequence(seq);
    let branch = match op.op_type {
        OperationType::Branch => resolve_branch_name(&op),
        _ => original.get_branch(head.as_str()),
    };
    let mut ctx = ApplyContext { tables: original.clone_tables(), doc_id, new_rev: &new_rev, op: &op };
    let handled = registry.dispatch(&mut ctx);
    let mut work = ctx.tables;
    let ghost handled_tables = work@;
    let done = match handled {
        Ok(()) => work.commit_operation(&op, &new_rev, branch),
        Err(e) => Err(e),
    };
    match done {
        Ok(()) => {
            store.restore_tables(i, work);
            proof {
                assert(store@ == s0.update(i as int, work@));
                assert(store@[i as int] == work@);
            }
            Ok(ApplyOutcome { revision: new_rev, op_id: op.id.clone() })
        },
        Err(e) => {
            store.restore_tables(i, original);
            assert(store@ =~= s0);
            Err(e)
        },
    }
}

/// Apply `op` to document `doc_id` with the built-in handlers.
pub fn apply_operation(store: &mut Store, doc_id: &str, op: Operation) -> (r: Result<ApplyOutcome, ApplyError>)
    ensures
        outcome_post(r, old(store)@, final(store)@, doc_id@, op@, apply_spec(old(store)@, doc_id@, op@, stamp(old(store)@, final(store)@, doc_id@))),
{
    let registry = HandlerRegistry::default();
    let ghost k = op@.op_type;
    assert(slot(registry@, k) == default_slot(k));
    apply_with_registry(store, doc_id, op, &registry)
}

} // verus!
