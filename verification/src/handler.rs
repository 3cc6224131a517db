//! Pluggable operation handlers: one handler per operation type, looked up
//! in a registry that callers may extend or override.

use vstd::prelude::*;
use crate::engine::{
    branch_spec_check, create_spec, delete_spec, edit_spec, handle_branch, handle_create,
    handle_delete, handle_edit, handle_link, handle_merge, handle_split, handle_unlink,
    handler_post, link_spec, merge_spec, split_spec, unlink_spec, ApplyContext, ApplyError,
    ApplyErrorV,
};
use crate::model::{op_type_text, ChangeType, OperationType, OperationV};
use crate::store::DocTablesV;
use crate::text::owned;

verus! {

/// The implementation of exactly one operation type.
pub trait OperationHandler {
    /// The operation type this handler implements.
    spec fn kind(&self) -> OperationType;

    fn op_type(&self) -> (r: OperationType)
        ensures
            r == self.kind(),
    ;

    fn apply(&self, ctx: &mut ApplyContext) -> Result<(), ApplyError>;
}

/// What the built-in handler of `k` does to the tables `t` for `op`, which
/// becomes revision `rev`. `Revert` has no built-in handler.
pub open spec fn builtin_spec(k: OperationType, t: DocTablesV, op: OperationV, rev: Seq<char>) -> Result<DocTablesV, ApplyErrorV> {
    match k {
        OperationType::Create => create_spec(t, op, rev),
        OperationType::Update => edit_spec(t, op, rev, "update"@, ChangeType::ContentUpdate, "update node"@),
        OperationType::Delete => delete_spec(t, op, rev),
        OperationType::Rename => edit_spec(t, op, rev, "rename"@, ChangeType::Rename, "rename node"@),
        OperationType::Move => edit_spec(t, op, rev, "move"@, ChangeType::Move, "move node"@),
        OperationType::Replace => edit_spec(t, op, rev, "replace"@, ChangeType::ContentUpdate, "replace node"@),
        OperationType::Split => split_spec(t, op, rev),
        OperationType::Merge => merge_spec(t, op, rev),
        OperationType::Link => link_spec(t, op, rev),
        OperationType::Unlink => unlink_spec(t, op, rev),
        OperationType::Branch => branch_spec_check(t, op),
        OperationType::Revert => Err(ApplyErrorV::UnknownOperation(op_type_text(OperationType::Revert))),
    }
}

/// The handler's postcondition: `ctx` is the same context with new tables,
/// related to the old ones as the built-in handler of `k` prescribes.
pub open spec fn builtin_post(k: OperationType, old_ctx: ApplyContext, new_ctx: ApplyContext, r: Result<(), ApplyError>) -> bool {
    &&& new_ctx.op == old_ctx.op
    &&& new_ctx.new_rev == old_ctx.new_rev
    &&& new_ctx.doc_id == old_ctx.doc_id
    &&& handler_post(r, new_ctx.tables@, builtin_spec(k, old_ctx.tables@, old_ctx.op@, old_ctx.new_rev@))
}

/// Run the built-in handler of `k`.
pub fn run_builtin(k: OperationType, ctx: &mut ApplyContext) -> (r: Result<(), ApplyError>)
    ensures
        builtin_post(k, *old(ctx), *final(ctx), r),
{
    match k {
        OperationType::Create => handle_create(ctx),
        OperationType::Update => handle_edit(ctx, "update", ChangeType::ContentUpdate, "update node"),
        OperationType::Delete => handle_delete(ctx),
        OperationType::Rename => handle_edit(ctx, "rename", ChangeType::Rename, "rename node"),
        OperationType::Move => handle_edit(ctx, "move", ChangeType::Move, "move node"),
        OperationType::Replace => handle_edit(ctx, "replace", ChangeType::ContentUpdate, "replace node"),
        OperationType::Split => handle_split(ctx),
        OperationType::Merge => handle_merge(ctx),
        OperationType::Link => handle_link(ctx),
        OperationType::Unlink => handle_unlink(ctx),
        OperationType::Branch => handle_branch(ctx),
        OperationType::Revert => Err(ApplyError::UnknownOperation(owned(k.as_str()))),
    }
}

/// Creates the target node from the patch.
pub struct CreateHandler;

/// Patches the target node's content.
pub struct UpdateHandler;

/// Removes the target node.
pub struct DeleteHandler;

/// Patches the target node and records a rename.
pub struct RenameHandler;

/// Patches the target node and records a move.
pub struct MoveHandler;

/// Replaces the target node's content.
pub struct ReplaceHandler;

/// Splits the target node into the listed nodes.
pub struct SplitHandler;

/// Merges the listed nodes into the target.
pub struct MergeHandler;

/// Adds the relation `targets[0]` -> `target`.
pub struct LinkHandler;

/// Removes the relation `targets[0]` -> `target`.
pub struct UnlinkHandler;

/// Validates a branch label; changes no node.
pub struct BranchHandler;

impl OperationHandler for CreateHandler {
    open spec fn kind(&self) -> OperationType {
        OperationType::Create
    }

    fn op_type(&self) -> (r: OperationType) {
        OperationType::Create
    }

    fn apply(&self, ctx: &mut ApplyContext) -> (r: Result<(), ApplyError>)
        ensures
            builtin_post(OperationType::Create, *old(ctx), *final(ctx), r),
    {
        run_builtin(OperationType::Create, ctx)
    }
}

impl OperationHandler for UpdateHandler {
    open spec fn kind(&self) -> OperationType {
        OperationType::Update
    }

    fn op_type(&self) -> (r: OperationType) {
        OperationType::Update
    }

    fn apply(&self, ctx: &mut ApplyContext) -> (r: Result<(), ApplyError>)
        ensures
            builtin_post(OperationType::Update, *old(ctx), *final(ctx), r),
    {
        run_builtin(OperationType::Update, ctx)
    }
}

impl OperationHandler for DeleteHandler {
    open spec fn kind(&self) -> OperationType {
        OperationType::Delete
    }

    fn op_type(&self) -> (r: OperationType) {
        OperationType::Delete
    }

    fn apply(&self, ctx: &mut ApplyContext) -> (r: Result<(), ApplyError>)
        ensures
            builtin_post(OperationType::Delete, *old(ctx), *final(ctx), r),
    {
        run_builtin(OperationType::Delete, ctx)
    }
}

impl OperationHandler for RenameHandler {
    open spec fn kind(&self) -> OperationType {
        OperationType::Rename
    }

    fn op_type(&self) -> (r: OperationType) {
        OperationType::Rename
    }

    fn apply(&self, ctx: &mut ApplyContext) -> (r: Result<(), ApplyError>)
        ensures
            builtin_post(OperationType::Rename, *old(ctx), *final(ctx), r),
    {
        run_builtin(OperationType::Rename, ctx)
    }
}

impl OperationHandler for MoveHandler {
    open spec fn kind(&self) -> OperationType {
        OperationType::Move
    }

    fn op_type(&self) -> (r: OperationType) {
        OperationType::Move
    }

    fn apply(&self, ctx: &mut ApplyContext) -> (r: Result<(), ApplyError>)
        ensures
            builtin_post(OperationType::Move, *old(ctx), *final(ctx), r),
    {
        run_builtin(OperationType::Move, ctx)
    }
}

impl OperationHandler for ReplaceHandler {
    open spec fn kind(&self) -> OperationType {
        OperationType::Replace
    }

    fn op_type(&self) -> (r: OperationType) {
        OperationType::Replace
    }

    fn apply(&self, ctx: &mut ApplyContext) -> (r: Result<(), ApplyError>)
        ensures
            builtin_post(OperationType::Replace, *old(ctx), *final(ctx), r),
    {
        run_builtin(OperationType::Replace, ctx)
    }
}

impl OperationHandler for SplitHandler {
    open spec fn kind(&self) -> OperationType {
        OperationType::Split
    }

    fn op_type(&self) -> (r: OperationType) {
        OperationType::Split
    }

    fn apply(&self, ctx: &mut ApplyContext) -> (r: Result<(), ApplyError>)
        ensures
            builtin_post(OperationType::Split, *old(ctx), *final(ctx), r),
    {
        run_builtin(OperationType::Split, ctx)
    }
}

impl OperationHandler for MergeHandler {
    open spec fn kind(&self) -> OperationType {
        OperationType::Merge
    }

    fn op_type(&self) -> (r: OperationType) {
        OperationType::Merge
    }

    fn apply(&self, ctx: &mut ApplyContext) -> (r: Result<(), ApplyError>)
        ensures
            builtin_post(OperationType::Merge, *old(ctx), *final(ctx), r),
    {
        run_builtin(OperationType::Merge, ctx)
    }
}

impl OperationHandler for LinkHandler {
    open spec fn kind(&self) -> OperationType {
        OperationType::Link
    }

    fn op_type(&self) -> (r: OperationType) {
        OperationType::Link
    }

    fn apply(&self, ctx: &mut ApplyContext) -> (r: Result<(), ApplyError>)
        ensures
            builtin_post(OperationType::Link, *old(ctx), *final(ctx), r),
    {
        run_builtin(OperationType::Link, ctx)
    }
}

impl OperationHandler for UnlinkHandler {
    open spec fn kind(&self) -> OperationType {
        OperationType::Unlink
    }

    fn op_type(&self) -> (r: OperationType) {
        OperationType::Unlink
    }

    fn apply(&self, ctx: &mut ApplyContext) -> (r: Result<(), ApplyError>)
        ensures
            builtin_post(OperationType::Unlink, *old(ctx), *final(ctx), r),
    {
        run_builtin(OperationType::Unlink, ctx)
    }
}

impl OperationHandler for BranchHandler {
    open spec fn kind(&self) -> OperationType {
        OperationType::Branch
    }

    fn op_type(&self) -> (r: OperationType) {
        OperationType::Branch
    }

    fn apply(&self, ctx: &mut ApplyContext) -> (r: Result<(), ApplyError>)
        ensures
            builtin_post(OperationType::Branch, *old(ctx), *final(ctx), r),
    {
        run_builtin(OperationType::Branch, ctx)
    }
}

/// A registry entry: the operation type, whether the handler is a built-in
/// one, and the handler.
type Entry = (OperationType, bool, Box<dyn OperationHandler>);

/// Maps each operation type to its handler. Registering a handler for a
/// type that already has one replaces it.
pub struct HandlerRegistry {
    entries: Vec<Entry>,
}

impl View for HandlerRegistry {
    type V = Seq<(OperationType, bool)>;

    closed spec fn view(&self) -> Seq<(OperationType, bool)> {
        self.entries@.map_values(|e: Entry| (e.0, e.1))
    }
}

/// The handler registered for `k`: `Some(true)` for a built-in one,
/// `Some(false)` for one a caller supplied, `None` for none. The latest
/// entry for a type is the one that counts.
pub open spec fn slot(s: Seq<(OperationType, bool)>, k: OperationType) -> Option<bool>
    decreases s.len(),
{
    if s.len() == 0 {
        None
    } else if s.last().0 == k {
        Some(s.last().1)
    } else {
        slot(s.drop_last(), k)
    }
}

/// The slots of the default registry: every operation but `Revert` has its
/// built-in handler.
pub open spec fn default_slot(k: OperationType) -> Option<bool> {
    if k == OperationType::Revert { None } else { Some(true) }
}

pub proof fn lemma_slot_absent(s: Seq<(OperationType, bool)>, k: OperationType)
    requires
        forall|j: int| 0 <= j < s.len() ==> s[j].0 != k,
    ensures
        slot(s, k) is None,
    decreases s.len(),
{
    if s.len() > 0 {
        lemma_slot_absent(s.drop_last(), k);
    }
}

pub proof fn lemma_slot_at(s: Seq<(OperationType, bool)>, i: int, k: OperationType)
    requires
        0 <= i < s.len(),
        s[i].0 == k,
        forall|j: int| i < j < s.len() ==> s[j].0 != k,
    ensures
        slot(s, k) == Some(s[i].1),
    decreases s.len(),
{
    if i < s.len() - 1 {
        lemma_slot_at(s.drop_last(), i, k);
    }
}

pub proof fn lemma_slot_update(s: Seq<(OperationType, bool)>, i: int, e: (OperationType, bool), k: OperationType)
    requires
        0 <= i < s.len(),
        s[i].0 == e.0,
        forall|j: int| i < j < s.len() ==> s[j].0 != e.0,
    ensures
        slot(s.update(i, e), k) == if k == e.0 { Some(e.1) } else { slot(s, k) },
    decreases s.len(),
{
    if i < s.len() - 1 {
        assert(s.update(i, e).drop_last() =~= s.drop_last().update(i, e));
        lemma_slot_update(s.drop_last(), i, e, k);
    } else {
        assert(s.update(i, e).drop_last() =~= s.drop_last());
    }
}

impl HandlerRegistry {
    /// Every handler is filed under the operation type it implements.
    #[verifier::type_invariant]
    spec fn handlers_match(self) -> bool {
        forall|i: int| 0 <= i < self.entries@.len() ==> (#[trigger] self.entries@[i]).2.kind() == self.entries@[i].0
    }

    /// An empty registry.
    pub fn new() -> (r: HandlerRegistry)
        ensures
            forall|k: OperationType| slot(r@, k) is None,
    {
        let r = HandlerRegistry { entries: Vec::new() };
        assert forall|k: OperationType| slot(r@, k) is None by {
            assert(r@.len() == 0);
        }
        r
    }

    /// The position of the latest entry for `k`.
    fn find(&self, k: OperationType) -> (r: Option<usize>)
        ensures
            match r {
                Some(i) => i < self@.len() && slot(self@, k) == Some(self@[i as int].1)
                    && self@[i as int].0 == k && forall|j: int| i < j < self@.len() ==> self@[j].0 != k,
                None => slot(self@, k) is None,
            },
    {
        let mut i = self.entries.len();
        while i > 0
            invariant
                i <= self.entries@.len(),
                self@.len() == self.entries@.len(),
                forall|j: int| i <= j < self@.len() ==> self@[j].0 != k,
            decreases i,
        {
            i = i - 1;
            assert(self@[i as int] == (self.entries@[i as int].0, self.entries@[i as int].1));
            if self.entries[i].0 == k {
                proof {
                    lemma_slot_at(self@, i as int, k);
                }
                return Some(i);
            }
        }
        proof {
            lemma_slot_absent(self@, k);
        }
        None
    }

    fn put(&mut self, entry: Entry)
        requires
            entry.2.kind() == entry.0,
        ensures
            slot(final(self)@, entry.0) == Some(entry.1),
            forall|k2: OperationType| k2 != entry.0 ==> slot(final(self)@, k2) == slot(old(self)@, k2),
    {
        proof {
            use_type_invariant(&*self);
        }
        let k = entry.0;
        let builtin = entry.1;
        let found = self.find(k);
        let mut entries: Vec<Entry> = Vec::new();
        std::mem::swap(&mut entries, &mut self.entries);
        let ghost e0 = entries@;
        assert(e0 == old(self).entries@);
        match found {
            Some(i) => {
                entries.set(i, entry);
                assert forall|j: int| 0 <= j < entries@.len() implies (#[trigger] entries@[j]).2.kind() == entries@[j].0 by {
                    if j != i {
                        assert(entries@[j] == e0[j]);
                    }
                }
                self.entries = entries;
                assert(self.entries@.len() == old(self).entries@.len());
                assert(self@[i as int] == (k, builtin));
                assert forall|j: int| 0 <= j < self@.len() && j != i implies self@[j] == old(self)@[j] by {
                    assert(self.entries@[j] == old(self).entries@[j]);
                }
                assert(self@ =~= old(self)@.update(i as int, (k, builtin)));
                proof {
                    assert forall|k2: OperationType| #[trigger] slot(self@, k2) == if k2 == k { Some(builtin) } else { slot(old(self)@, k2) } by {
                        lemma_slot_update(old(self)@, i as int, (k, builtin), k2);
                    }
                }
            },
            None => {
                entries.push(entry);
                assert forall|j: int| 0 <= j < entries@.len() implies (#[trigger] entries@[j]).2.kind() == entries@[j].0 by {
                    if j < e0.len() {
                        assert(entries@[j] == e0[j]);
                    }
                }
                self.entries = entries;
                assert(self.entries@.len() == old(self).entries@.len() + 1);
                assert forall|j: int| 0 <= j < old(self)@.len() implies self@[j] == old(self)@[j] by {
                    assert(self.entries@[j] == old(self).entries@[j]);
                }
                assert(self@ =~= old(self)@.push((k, builtin)));
                assert(self@.drop_last() =~= old(self)@);
            },
        }
    }

    /// Add a caller's handler under the operation type it implements,
    /// replacing any handler that type had; the other types keep theirs.
    pub fn register(&mut self, handler: Box<dyn OperationHandler>)
        ensures
            slot(final(self)@, handler.kind()) == Some(false),
            forall|k2: OperationType| k2 != handler.kind() ==> slot(final(self)@, k2) == slot(old(self)@, k2),
    {
        let k = handler.op_type();
        let entry = (k, false, handler);
        self.put(entry);
    }

    /// The handler filed under `op_type`, if one is registered: one that
    /// implements `op_type`.
    pub fn get(&self, op_type: OperationType) -> (r: Option<&Box<dyn OperationHandler>>)
        ensures
            r is Some <==> slot(self@, op_type) is Some,
            r matches Some(h) ==> h.kind() == op_type,
    {
        proof {
            use_type_invariant(self);
        }
        match self.find(op_type) {
            Some(i) => Some(&self.entries[i].2),
            None => None,
        }
    }

    /// Run the handler registered for the operation in `ctx`.
    pub fn dispatch(&self, ctx: &mut ApplyContext) -> (r: Result<(), ApplyError>)
        ensures
            match slot(self@, old(ctx).op@.op_type) {
                None => r matches Err(e) && e@ == ApplyErrorV::UnknownOperation(op_type_text(old(ctx).op@.op_type)),
                Some(true) => builtin_post(old(ctx).op@.op_type, *old(ctx), *final(ctx), r),
                Some(false) => true,
            },
    {
        let k = ctx.op.op_type;
        match self.find(k) {
            Some(i) => {
                if self.entries[i].1 {
                    run_builtin(k, ctx)
                } else {
                    self.entries[i].2.apply(ctx)
                }
            },
            None => Err(ApplyError::UnknownOperation(owned(k.as_str()))),
        }
    }
}

impl Default for HandlerRegistry {
    /// Every built-in handler; `Revert` is left out.
    fn default() -> (r: HandlerRegistry)
        ensures
            forall|k: OperationType| #[trigger] slot(r@, k) == default_slot(k),
    {
        let mut r = HandlerRegistry::new();
        r.put((OperationType::Create, true, Box::new(CreateHandler)));
        r.put((OperationType::Update, true, Box::new(UpdateHandler)));
        r.put((OperationType::Delete, true, Box::new(DeleteHandler)));
        r.put((OperationType::Rename, true, Box::new(RenameHandler)));
        r.put((OperationType::Move, true, Box::new(MoveHandler)));
        r.put((OperationType::Replace, true, Box::new(ReplaceHandler)));
        r.put((OperationType::Split, true, Box::new(SplitHandler)));
        r.put((OperationType::Merge, true, Box::new(MergeHandler)));
        r.put((OperationType::Link, true, Box::new(LinkHandler)));
        r.put((OperationType::Unlink, true, Box::new(UnlinkHandler)));
        r.put((OperationType::Branch, true, Box::new(BranchHandler)));
        r
    }
}

} // verus!
