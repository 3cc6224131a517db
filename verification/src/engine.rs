//! The operation engine: preconditions, pluggable handlers and the
//! transactional apply that turns one operation into one new revision.

use vstd::prelude::*;
use crate::attrs::{attr_entries, attrs_get, attrs_new, attrs_shift_remove, entry_get, entry_shift_remove, Entries};
use crate::conflict::{Conflict, ConflictV};
use crate::id::{content_hash, content_hash_of, NodeId, OpId, RevisionId};
use crate::model::{
    opt_hash_view, Change, ChangeType, ChangeV, HashRef, Operation, OperationType, OperationV,
    Relation, RelationKind, RelationV, relation_kind_from_text,
};
use crate::node::{Node, NodeKind, NodeV};
use crate::patch::{apply_patch_to_node, patch_node};
use crate::store::{
    delete_node_spec, delete_relation_spec, get_hash_spec, get_node_spec, insert_change_spec,
    insert_node_spec, insert_relation_spec, update_node_spec, DocTables, DocTablesV, StoreError,
    StoreErrorV,
};
use crate::text::{blank, debug_quoted, debug_text_of, decimal, decimal_string, is_blank, opt_str_view, owned, str_eq};
use crate::store::{node_row_of, NodeRow, NodeRowV};

verus! {

/// Why an operation could not be applied.
#[derive(Debug)]
pub enum ApplyError {
    Conflict(Conflict),
    Store(StoreError),
    MissingTarget(String),
    MissingPatch,
    MissingSplitTargets,
    Invalid(String),
    UnknownOperation(String),
}

pub enum ApplyErrorV {
    Conflict(ConflictV),
    Store(StoreErrorV),
    MissingTarget(Seq<char>),
    MissingPatch,
    MissingSplitTargets,
    Invalid(Seq<char>),
    UnknownOperation(Seq<char>),
}

impl View for ApplyError {
    type V = ApplyErrorV;

    open spec fn view(&self) -> ApplyErrorV {
        match self {
            ApplyError::Conflict(c) => ApplyErrorV::Conflict(c@),
            ApplyError::Store(e) => ApplyErrorV::Store(e@),
            ApplyError::MissingTarget(m) => ApplyErrorV::MissingTarget(m@),
            ApplyError::MissingPatch => ApplyErrorV::MissingPatch,
            ApplyError::MissingSplitTargets => ApplyErrorV::MissingSplitTargets,
            ApplyError::Invalid(m) => ApplyErrorV::Invalid(m@),
            ApplyError::UnknownOperation(m) => ApplyErrorV::UnknownOperation(m@),
        }
    }
}

pub open spec fn store_error_text(e: StoreErrorV) -> Seq<char> {
    match e {
        StoreErrorV::Constraint(m) => "sqlite error: "@ + m,
        StoreErrorV::Integrity(m) => "integrity: "@ + m,
    }
}

pub open spec fn apply_error_text(e: ApplyErrorV) -> Seq<char> {
    match e {
        ApplyErrorV::Conflict(c) => c.detail + " ("@ + crate::conflict::conflict_kind_text(c.kind) + ")"@,
        ApplyErrorV::Store(s) => store_error_text(s),
        ApplyErrorV::MissingTarget(m) => "operation requires a target node: "@ + m,
        ApplyErrorV::MissingPatch => "operation requires a patch"@,
        ApplyErrorV::MissingSplitTargets => "split requires targets"@,
        ApplyErrorV::Invalid(m) => "invalid operation: "@ + m,
        ApplyErrorV::UnknownOperation(m) => "unknown operation: "@ + m,
    }
}

impl StoreError {
    /// The human-readable message.
    pub fn message(&self) -> (r: String)
        ensures
            r@ == store_error_text(self@),
    {
        match self {
            StoreError::Constraint(m) => {
                let mut s = owned("sqlite error: ");
                s.append(m.as_str());
                s
            },
            StoreError::Integrity(m) => {
                let mut s = owned("integrity: ");
                s.append(m.as_str());
                s
            },
        }
    }
}

impl ApplyError {
    /// The human-readable message.
    pub fn message(&self) -> (r: String)
        ensures
            r@ == apply_error_text(self@),
    {
        match self {
            ApplyError::Conflict(c) => c.to_display(),
            ApplyError::Store(e) => e.message(),
            ApplyError::MissingTarget(m) => {
                let mut s = owned("operation requires a target node: ");
                s.append(m.as_str());
                s
            },
            ApplyError::MissingPatch => owned("operation requires a patch"),
            ApplyError::MissingSplitTargets => owned("split requires targets"),
            ApplyError::Invalid(m) => {
                let mut s = owned("invalid operation: ");
                s.append(m.as_str());
                s
            },
            ApplyError::UnknownOperation(m) => {
                let mut s = owned("unknown operation: ");
                s.append(m.as_str());
                s
            },
        }
    }
}

pub open spec fn lift(r: Result<DocTablesV, StoreErrorV>) -> Result<DocTablesV, ApplyErrorV> {
    match r {
        Ok(t) => Ok(t),
        Err(e) => Err(ApplyErrorV::Store(e)),
    }
}

/// `CH-{revision}-{node}`.
pub open spec fn change_id(rev: Seq<char>, node: Seq<char>) -> Seq<char> {
    "CH-"@ + rev + "-"@ + node
}

/// Recording the change of `node` in revision `rev`.
pub open spec fn record_spec(
    t: DocTablesV,
    rev: Seq<char>,
    node: Seq<char>,
    ct: ChangeType,
    before: Option<Seq<char>>,
    after: Option<Seq<char>>,
    summary: Seq<char>,
) -> Result<DocTablesV, ApplyErrorV> {
    lift(insert_change_spec(t, ChangeV {
        id: change_id(rev, node),
        revision: rev,
        node,
        change_type: ct,
        before,
        after,
        summary: Some(summary),
    }))
}

/// Transaction-scoped context handed to an operation handler: the working
/// copy of the document's tables plus the ids the handler needs.
pub struct ApplyContext<'a> {
    pub tables: DocTables,
    pub doc_id: &'a str,
    pub new_rev: &'a RevisionId,
    pub op: &'a Operation,
}

impl<'a> ApplyContext<'a> {
    pub closed spec fn tables_view(&self) -> DocTablesV {
        self.tables@
    }

    pub fn get_node(&self, id: &NodeId) -> (r: Option<Node>)
        ensures
            match r {
                Some(n) => get_node_spec(self.tables_view(), id@) == Some(n@),
                None => get_node_spec(self.tables_view(), id@) is None,
            },
    {
        self.tables.get_node(id.as_str())
    }

    pub fn insert_node(&mut self, node: &Node) -> (r: Result<(), ApplyError>)
        ensures
            final(self).op == old(self).op && final(self).new_rev == old(self).new_rev && final(self).doc_id == old(self).doc_id,
            match insert_node_spec(old(self).tables_view(), node@) {
                Ok(t) => r is Ok && final(self).tables_view() == t,
                Err(e) => r matches Err(e2) && e2@ == ApplyErrorV::Store(e),
            },
    {
        match self.tables.insert_node(node) {
            Ok(()) => Ok(()),
            Err(e) => Err(ApplyError::Store(e)),
        }
    }

    /// Overwrite a node; returns its new content hash.
    pub fn update_node(&mut self, node: &Node) -> (r: String)
        ensures
            final(self).op == old(self).op && final(self).new_rev == old(self).new_rev && final(self).doc_id == old(self).doc_id,
            final(self).tables_view() == update_node_spec(old(self).tables_view(), node@),
            r@ == content_hash_of(node@.content),
    {
        self.tables.update_node(node)
    }

    pub fn delete_node(&mut self, id: &NodeId)
        ensures
            final(self).op == old(self).op && final(self).new_rev == old(self).new_rev && final(self).doc_id == old(self).doc_id,
            final(self).tables_view() == delete_node_spec(old(self).tables_view(), id@),
    {
        self.tables.delete_node(id.as_str())
    }

    pub fn get_content_hash(&self, id: &NodeId) -> (r: Option<String>)
        ensures
            opt_str_view(r) == get_hash_spec(self.tables_view(), id@),
    {
        self.tables.get_content_hash(id.as_str())
    }

    pub fn insert_relation(&mut self, rel: &Relation) -> (r: Result<(), ApplyError>)
        ensures
            final(self).op == old(self).op && final(self).new_rev == old(self).new_rev && final(self).doc_id == old(self).doc_id,
            match insert_relation_spec(old(self).tables_view(), rel@) {
                Ok(t) => r is Ok && final(self).tables_view() == t,
                Err(e) => r matches Err(e2) && e2@ == ApplyErrorV::Store(e),
            },
    {
        match self.tables.insert_relation(rel) {
            Ok(()) => Ok(()),
            Err(e) => Err(ApplyError::Store(e)),
        }
    }

    pub fn delete_relation(&mut self, id: &str)
        ensures
            final(self).op == old(self).op && final(self).new_rev == old(self).new_rev && final(self).doc_id == old(self).doc_id,
            final(self).tables_view() == delete_relation_spec(old(self).tables_view(), id@),
    {
        self.tables.delete_relation(id)
    }

    /// The live nodes ordered by (parent, position, id).
    pub fn list_nodes(&self) -> (r: Vec<Node>)
        ensures
            crate::store::nodes_view(r@) == crate::store::list_nodes_spec(self.tables_view()),
    {
        self.tables.list_nodes()
    }

    /// Emit the change record `CH-{new_rev}-{node}`.
    pub fn record_change(
        &mut self,
        node: &NodeId,
        change_type: ChangeType,
        before: Option<&String>,
        after: Option<&String>,
        summary: &str,
    ) -> (r: Result<(), ApplyError>)
        ensures
            final(self).op == old(self).op && final(self).new_rev == old(self).new_rev && final(self).doc_id == old(self).doc_id,
            match record_spec(
                old(self).tables_view(),
                old(self).new_rev@,
                node@,
                change_type,
                match before { Some(h) => Some(h@), None => None },
                match after { Some(h) => Some(h@), None => None },
                summary@,
            ) {
                Ok(t) => r is Ok && final(self).tables_view() == t,
                Err(e) => r matches Err(e2) && e2@ == e,
            },
    {
        let mut id = owned("CH-");
        id.append(self.new_rev.as_str());
        id.append("-");
        id.append(node.as_str());
        let ch = Change {
            id,
            revision: self.new_rev.clone(),
            node: node.clone(),
            change_type,
            before: match before {
                Some(h) => Some(HashRef { hash: h.clone() }),
                None => None,
            },
            after: match after {
                Some(h) => Some(HashRef { hash: h.clone() }),
                None => None,
            },
            summary: Some(owned(summary)),
        };
        match self.tables.insert_change(ch) {
            Ok(()) => Ok(()),
            Err(e) => Err(ApplyError::Store(e)),
        }
    }
}

/// A fresh node of generic kind with empty content and no attributes.
pub open spec fn blank_node(id: Seq<char>) -> NodeV {
    NodeV {
        id,
        kind: NodeKind::Generic,
        parent: None,
        position: 0,
        semantic_type: None,
        content: Seq::empty(),
        attributes: Seq::empty(),
    }
}

pub open spec fn target_not_found(id: Seq<char>) -> ApplyErrorV {
    ApplyErrorV::Store(StoreErrorV::Integrity("target not found: "@ + id))
}

/// Create: insert the patched blank node, record `create`.
pub open spec fn create_spec(t: DocTablesV, op: OperationV, rev: Seq<char>) -> Result<DocTablesV, ApplyErrorV> {
    match op.target {
        None => Err(ApplyErrorV::MissingTarget("create"@)),
        Some(tg) => match op.patch {
            None => Err(ApplyErrorV::MissingPatch),
            Some(p) => {
                let n = patch_node(blank_node(tg), p);
                match insert_node_spec(t, n) {
                    Err(e) => Err(ApplyErrorV::Store(e)),
                    Ok(t1) => record_spec(t1, rev, tg, ChangeType::Create, None, Some(content_hash_of(n.content)), "create node"@),
                }
            },
        },
    }
}

/// Update / rename / move / replace: patch the existing target and record
/// the given change type with its before and after hashes.
pub open spec fn edit_spec(
    t: DocTablesV,
    op: OperationV,
    rev: Seq<char>,
    name: Seq<char>,
    ct: ChangeType,
    summary: Seq<char>,
) -> Result<DocTablesV, ApplyErrorV> {
    match op.target {
        None => Err(ApplyErrorV::MissingTarget(name)),
        Some(tg) => match op.patch {
            None => Err(ApplyErrorV::MissingPatch),
            Some(p) => match get_node_spec(t, tg) {
                None => Err(target_not_found(tg)),
                Some(n) => {
                    let n2 = patch_node(n, p);
                    record_spec(
                        update_node_spec(t, n2),
                        rev,
                        tg,
                        ct,
                        Some(content_hash_of(n.content)),
                        Some(content_hash_of(n2.content)),
                        summary,
                    )
                },
            },
        },
    }
}

/// Delete: remove the target, record `delete` with its former hash
/// (empty when it did not exist).
pub open spec fn delete_spec(t: DocTablesV, op: OperationV, rev: Seq<char>) -> Result<DocTablesV, ApplyErrorV> {
    match op.target {
        None => Err(ApplyErrorV::MissingTarget("delete"@)),
        Some(tg) => {
            let before = match get_node_spec(t, tg) {
                Some(n) => content_hash_of(n.content),
                None => Seq::empty(),
            };
            record_spec(delete_node_spec(t, tg), rev, tg, ChangeType::Delete, Some(before), None, "delete node"@)
        },
    }
}

pub open spec fn handler_post(r: Result<(), ApplyError>, ctx_after: DocTablesV, spec: Result<DocTablesV, ApplyErrorV>) -> bool {
    match spec {
        Ok(t) => r is Ok && ctx_after == t,
        Err(e) => r matches Err(e2) && e2@ == e,
    }
}

pub fn handle_create(ctx: &mut ApplyContext) -> (r: Result<(), ApplyError>)
    ensures
        final(ctx).op == old(ctx).op && final(ctx).new_rev == old(ctx).new_rev && final(ctx).doc_id == old(ctx).doc_id,
        handler_post(r, final(ctx).tables@, create_spec(old(ctx).tables@, old(ctx).op@, old(ctx).new_rev@)),
{
    let target = match &ctx.op.target {
        Some(t) => t.clone(),
        None => return Err(ApplyError::MissingTarget(owned("create"))),
    };
    let patch = match &ctx.op.patch {
        Some(p) => p,
        None => return Err(ApplyError::MissingPatch),
    };
    let mut node = Node::new(target.clone(), NodeKind::Generic);
    apply_patch_to_node(&mut node, patch);
    let after_hash = content_hash(node.content.as_str());
    ctx.insert_node(&node)?;
    ctx.record_change(&target, ChangeType::Create, None, Some(&after_hash), "create node")
}

pub fn handle_edit(ctx: &mut ApplyContext, name: &str, ct: ChangeType, summary: &str) -> (r: Result<(), ApplyError>)
    ensures
        final(ctx).op == old(ctx).op && final(ctx).new_rev == old(ctx).new_rev && final(ctx).doc_id == old(ctx).doc_id,
        handler_post(r, final(ctx).tables@, edit_spec(old(ctx).tables@, old(ctx).op@, old(ctx).new_rev@, name@, ct, summary@)),
{
    let target = match &ctx.op.target {
        Some(t) => t.clone(),
        None => return Err(ApplyError::MissingTarget(owned(name))),
    };
    let patch = match &ctx.op.patch {
        Some(p) => p,
        None => return Err(ApplyError::MissingPatch),
    };
    let mut node = match ctx.get_node(&target) {
        Some(n) => n,
        None => {
            let mut m = owned("target not found: ");
            m.append(target.as_str());
            return Err(ApplyError::Store(StoreError::Integrity(m)));
        },
    };
    let before_hash = content_hash(node.content.as_str());
    apply_patch_to_node(&mut node, patch);
    let after_hash = ctx.update_node(&node);
    ctx.record_change(&target, ct, Some(&before_hash), Some(&after_hash), summary)
}

pub fn handle_delete(ctx: &mut ApplyContext) -> (r: Result<(), ApplyError>)
    ensures
        final(ctx).op == old(ctx).op && final(ctx).new_rev == old(ctx).new_rev && final(ctx).doc_id == old(ctx).doc_id,
        handler_post(r, final(ctx).tables@, delete_spec(old(ctx).tables@, old(ctx).op@, old(ctx).new_rev@)),
{
    let target = match &ctx.op.target {
        Some(t) => t.clone(),
        None => return Err(ApplyError::MissingTarget(owned("delete"))),
    };
    let before_hash = match ctx.get_node(&target) {
        Some(n) => content_hash(n.content.as_str()),
        None => String::new(),
    };
    ctx.delete_node(&target);
    ctx.record_change(&target, ChangeType::Delete, Some(&before_hash), None, "delete node")
}

/// The position of the `i`-th node produced by a split (wrapping at `u32`).
pub open spec fn split_position(p: u32, i: int) -> u32 {
    ((p as int + i % 4294967296) % 4294967296) as u32
}

pub proof fn lemma_splits_err(t: DocTablesV, src: NodeV, ids: Seq<Seq<char>>, i: nat, k: nat)
    requires
        i <= k,
        insert_splits(t, src, ids, i) is Err,
    ensures
        insert_splits(t, src, ids, k) == insert_splits(t, src, ids, i),
    decreases k,
{
    if k > i {
        lemma_splits_err(t, src, ids, i, (k - 1) as nat);
    }
}

/// The `i`-th node a split creates from `src`: same kind, parent, semantic
/// type and attributes; the first keeps the content, the rest start empty.
pub open spec fn split_node(src: NodeV, id: Seq<char>, i: int) -> NodeV {
    NodeV {
        id,
        kind: src.kind,
        parent: src.parent,
        position: split_position(src.position, i),
        semantic_type: src.semantic_type,
        content: if i == 0 { src.content } else { Seq::empty() },
        attributes: src.attributes,
    }
}

/// Inserting the first `k` split nodes in order, stopping at the first refusal.
pub open spec fn insert_splits(t: DocTablesV, src: NodeV, ids: Seq<Seq<char>>, k: nat) -> Result<DocTablesV, StoreErrorV>
    decreases k,
{
    if k == 0 {
        Ok(t)
    } else {
        match insert_splits(t, src, ids, (k - 1) as nat) {
            Err(e) => Err(e),
            Ok(t1) => insert_node_spec(t1, split_node(src, ids[k - 1], k - 1)),
        }
    }
}

/// Children of `old_parent` move under `new_parent`.
pub open spec fn reparent_spec(t: DocTablesV, old_parent: Seq<char>, new_parent: Seq<char>) -> DocTablesV {
    DocTablesV {
        nodes: t.nodes.map_values(|r: NodeRowV| if r.node.parent == Some(old_parent) {
            node_row_of(NodeV { parent: Some(new_parent), ..r.node })
        } else {
            r
        }),
        ..t
    }
}

/// Split: the source is replaced by the target nodes (the first keeps the
/// content and the source's children), recording `split`.
pub open spec fn split_spec(t: DocTablesV, op: OperationV, rev: Seq<char>) -> Result<DocTablesV, ApplyErrorV> {
    match op.target {
        None => Err(ApplyErrorV::MissingTarget("split"@)),
        Some(source) => if op.targets.len() == 0 {
            Err(ApplyErrorV::MissingSplitTargets)
        } else {
            match get_node_spec(t, source) {
                None => Err(ApplyErrorV::Store(StoreErrorV::Integrity("split source not found: "@ + source))),
                Some(src) => match insert_splits(t, src, op.targets, op.targets.len()) {
                    Err(e) => Err(ApplyErrorV::Store(e)),
                    Ok(t1) => record_spec(
                        reparent_spec(delete_node_spec(t1, source), source, op.targets[0]),
                        rev,
                        source,
                        ChangeType::Split,
                        Some(content_hash_of(src.content)),
                        None,
                        "split into "@ + decimal(op.targets.len()) + " targets"@,
                    ),
                },
            }
        },
    }
}

pub open spec fn delete_all(t: DocTablesV, ids: Seq<Seq<char>>, k: nat) -> DocTablesV
    decreases k,
{
    if k == 0 { t } else { delete_node_spec(delete_all(t, ids, (k - 1) as nat), ids[k - 1]) }
}

/// Merge: the sources are deleted, the target kept, recording `merge`.
pub open spec fn merge_spec(t: DocTablesV, op: OperationV, rev: Seq<char>) -> Result<DocTablesV, ApplyErrorV> {
    match op.target {
        None => Err(ApplyErrorV::MissingTarget("merge"@)),
        Some(tg) => if op.targets.len() == 0 {
            Err(ApplyErrorV::MissingSplitTargets)
        } else {
            match get_node_spec(t, tg) {
                None => Err(ApplyErrorV::Store(StoreErrorV::Integrity("merge target not found: "@ + tg))),
                Some(n) => {
                    let before = content_hash_of(n.content);
                    let t1 = delete_all(t, op.targets, op.targets.len());
                    let after = match get_hash_spec(t1, tg) {
                        Some(h) => h,
                        None => before,
                    };
                    record_spec(t1, rev, tg, ChangeType::Merge, Some(before), Some(after),
                        "merge "@ + decimal(op.targets.len()) + " sources"@)
                },
            }
        },
    }
}

/// `rel-{source}-{target}`.
pub open spec fn relation_id(src: Seq<char>, dst: Seq<char>) -> Seq<char> {
    "rel-"@ + src + "-"@ + dst
}

pub open spec fn patch_attrs(op: OperationV) -> Entries {
    match op.patch {
        Some(p) => p.attributes,
        None => Seq::empty(),
    }
}

/// The relation a link operation creates: kind from the `relation_kind`
/// attribute (default `references`), remaining attributes carried over.
pub open spec fn link_relation(op: OperationV, src: Seq<char>, dst: Seq<char>) -> RelationV {
    let attrs = patch_attrs(op);
    let name = match entry_get(attrs, "relation_kind"@) {
        Some(v) => v,
        None => "references"@,
    };
    let kind = relation_kind_from_text(name);
    RelationV {
        id: relation_id(src, dst),
        source: src,
        target: dst,
        kind,
        custom_kind: if kind == RelationKind::Custom { Some(name) } else { None },
        attributes: entry_shift_remove(attrs, "relation_kind"@),
    }
}

/// Link: `targets[0]` -> `target`.
pub open spec fn link_spec(t: DocTablesV, op: OperationV, rev: Seq<char>) -> Result<DocTablesV, ApplyErrorV> {
    if op.targets.len() == 0 {
        Err(ApplyErrorV::MissingSplitTargets)
    } else {
        match op.target {
            None => Err(ApplyErrorV::MissingTarget("link"@)),
            Some(dst) => {
                let src = op.targets[0];
                match insert_relation_spec(t, link_relation(op, src, dst)) {
                    Err(e) => Err(ApplyErrorV::Store(e)),
                    Ok(t1) => record_spec(t1, rev, src, ChangeType::RelationAdd, None, None, "link relation added"@),
                }
            },
        }
    }
}

/// Unlink: remove relation `rel-{targets[0]}-{target}`.
pub open spec fn unlink_spec(t: DocTablesV, op: OperationV, rev: Seq<char>) -> Result<DocTablesV, ApplyErrorV> {
    if op.targets.len() == 0 {
        Err(ApplyErrorV::MissingSplitTargets)
    } else {
        match op.target {
            None => Err(ApplyErrorV::MissingTarget("unlink"@)),
            Some(dst) => {
                let src = op.targets[0];
                record_spec(delete_relation_spec(t, relation_id(src, dst)), rev, src,
                    ChangeType::RelationRemove, None, None, "link relation removed"@)
            },
        }
    }
}

/// The branch name an operation carries: the `branch` attribute, else the reason.
pub open spec fn branch_name(op: OperationV) -> Option<Seq<char>> {
    match entry_get(patch_attrs(op), "branch"@) {
        Some(b) => Some(b),
        None => op.reason,
    }
}

pub open spec fn missing_branch_msg() -> Seq<char> {
    "branch op needs a branch name (patch.attributes[\"branch\"] or reason)"@
}

/// Branch: only validates the name (non-blank, not `main`); nothing mutates.
pub open spec fn branch_spec_check(t: DocTablesV, op: OperationV) -> Result<DocTablesV, ApplyErrorV> {
    match branch_name(op) {
        None => Err(ApplyErrorV::Invalid(missing_branch_msg())),
        Some(b) => if is_blank(b) || b == "main"@ {
            Err(ApplyErrorV::Invalid("branch name must be non-empty and not 'main' (got "@ + debug_text_of(b) + ")"@))
        } else {
            Ok(t)
        },
    }
}

impl DocTables {
    /// Move every child of `old_parent` under `new_parent`.
    pub fn reparent(&mut self, old_parent: &str, new_parent: &NodeId)
        ensures
            final(self)@ == reparent_spec(old(self)@, old_parent@, new_parent@),
    {
        let mut i: usize = 0;
        while i < self.nodes.len()
            invariant
                i <= self.nodes@.len(),
                self.nodes@.len() == old(self).nodes@.len(),
                forall|j: int| 0 <= j < i ==> #[trigger] self.nodes@[j]@ == (if old(self).nodes@[j]@.node.parent == Some(old_parent@) {
                    node_row_of(NodeV { parent: Some(new_parent@), ..old(self).nodes@[j]@.node })
                } else {
                    old(self).nodes@[j]@
                }),
                forall|j: int| i <= j < self.nodes@.len() ==> #[trigger] self.nodes@[j] == old(self).nodes@[j],
                self.doc == old(self).doc,
                self.created_at == old(self).created_at,
                self.updated_at == old(self).updated_at,
                self.relations == old(self).relations,
                self.revisions == old(self).revisions,
                self.changes == old(self).changes,
                self.operations == old(self).operations,
                self.snapshots == old(self).snapshots,
            decreases self.nodes@.len() - i,
        {
            let matches = match &self.nodes[i].node.parent {
                Some(p) => str_eq(p.as_str(), old_parent),
                None => false,
            };
            if matches {
                let mut n = self.nodes[i].node.clone();
                n.parent = Some(new_parent.clone());
                let h = content_hash(n.content.as_str());
                self.nodes.set(i, NodeRow { node: n, content_hash: h });
            }
            i = i + 1;
        }
        assert(self@.nodes =~= reparent_spec(old(self)@, old_parent@, new_parent@).nodes);
    }
}

pub fn handle_split(ctx: &mut ApplyContext) -> (r: Result<(), ApplyError>)
    ensures
        final(ctx).op == old(ctx).op && final(ctx).new_rev == old(ctx).new_rev && final(ctx).doc_id == old(ctx).doc_id,
        handler_post(r, final(ctx).tables@, split_spec(old(ctx).tables@, old(ctx).op@, old(ctx).new_rev@)),
{
    let source = match &ctx.op.target {
        Some(t) => t.clone(),
        None => return Err(ApplyError::MissingTarget(owned("split"))),
    };
    let targets = &ctx.op.targets;
    if targets.len() == 0 {
        return Err(ApplyError::MissingSplitTargets);
    }
    let src = match ctx.get_node(&source) {
        Some(n) => n,
        None => {
            let mut m = owned("split source not found: ");
            m.append(source.as_str());
            return Err(ApplyError::Store(StoreError::Integrity(m)));
        },
    };
    let before_hash = content_hash(src.content.as_str());
    let ghost t0 = ctx.tables@;
    let ghost ids = ctx.op@.targets;
    let mut i: usize = 0;
    while i < targets.len()
        invariant
            i <= targets@.len(),
            targets == ctx.op.targets,
            ids == crate::model::ids_view(targets@),
            ctx.op == old(ctx).op && ctx.new_rev == old(ctx).new_rev && ctx.doc_id == old(ctx).doc_id,
            t0 == old(ctx).tables@,
            get_node_spec(t0, source@) == Some(src@),
            old(ctx).op@.target == Some(source@),
            insert_splits(t0, src@, ids, i as nat) == Ok::<DocTablesV, StoreErrorV>(ctx.tables@),
        decreases targets@.len() - i,
    {
        let pos = (((src.position as u64) + ((i as u64) % 4294967296u64)) % 4294967296u64) as u32;
        let new_node = Node {
            id: targets[i].clone(),
            kind: src.kind,
            parent: crate::node::clone_opt_id(&src.parent),
            position: pos,
            semantic_type: crate::node::clone_opt_string(&src.semantic_type),
            content: if i == 0 { src.content.clone() } else { String::new() },
            attributes: crate::attrs::attrs_clone(&src.attributes),
        };
        assert(new_node@ == split_node(src@, ids[i as int], i as int));
        let ghost tb = ctx.tables@;
        let r = ctx.insert_node(&new_node);
        if r.is_err() {
            proof {
                assert(insert_splits(t0, src@, ids, (i + 1) as nat) == insert_node_spec(tb, split_node(src@, ids[i as int], i as int)));
                lemma_splits_err(t0, src@, ids, (i + 1) as nat, targets@.len() as nat);
                assert(ids.len() == targets@.len());
                assert(old(ctx).op@.targets == ids);
                assert(insert_splits(t0, src@, ids, ids.len()) is Err);
            }
            return r;
        }
        i = i + 1;
    }
    ctx.delete_node(&source);
    let first = ctx.op.targets[0].clone();
    ctx.tables.reparent(source.as_str(), &first);
    let mut summary = owned("split into ");
    let n = decimal_string(targets.len() as u64);
    summary.append(n.as_str());
    summary.append(" targets");
    ctx.record_change(&source, ChangeType::Split, Some(&before_hash), None, summary.as_str())
}

pub fn handle_merge(ctx: &mut ApplyContext) -> (r: Result<(), ApplyError>)
    ensures
        final(ctx).op == old(ctx).op && final(ctx).new_rev == old(ctx).new_rev && final(ctx).doc_id == old(ctx).doc_id,
        handler_post(r, final(ctx).tables@, merge_spec(old(ctx).tables@, old(ctx).op@, old(ctx).new_rev@)),
{
    let target = match &ctx.op.target {
        Some(t) => t.clone(),
        None => return Err(ApplyError::MissingTarget(owned("merge"))),
    };
    let sources = &ctx.op.targets;
    if sources.len() == 0 {
        return Err(ApplyError::MissingSplitTargets);
    }
    let tnode = match ctx.get_node(&target) {
        Some(n) => n,
        None => {
            let mut m = owned("merge target not found: ");
            m.append(target.as_str());
            return Err(ApplyError::Store(StoreError::Integrity(m)));
        },
    };
    let before_hash = content_hash(tnode.content.as_str());
    let ghost t0 = ctx.tables@;
    let ghost ids = ctx.op@.targets;
    let mut i: usize = 0;
    while i < sources.len()
        invariant
            i <= sources@.len(),
            sources == ctx.op.targets,
            ids == crate::model::ids_view(sources@),
            ctx.op == old(ctx).op && ctx.new_rev == old(ctx).new_rev && ctx.doc_id == old(ctx).doc_id,
            t0 == old(ctx).tables@,
            delete_all(t0, ids, i as nat) == ctx.tables@,
        decreases sources@.len() - i,
    {
        ctx.delete_node(&sources[i]);
        i = i + 1;
    }
    let after_hash = match ctx.get_content_hash(&target) {
        Some(h) => h,
        None => before_hash.clone(),
    };
    let mut summary = owned("merge ");
    let n = decimal_string(sources.len() as u64);
    summary.append(n.as_str());
    summary.append(" sources");
    ctx.record_change(&target, ChangeType::Merge, Some(&before_hash), Some(&after_hash), summary.as_str())
}

pub fn make_relation_id(src: &NodeId, dst: &NodeId) -> (r: String)
    ensures
        r@ == relation_id(src@, dst@),
{
    let mut id = owned("rel-");
    id.append(src.as_str());
    id.append("-");
    id.append(dst.as_str());
    id
}

pub fn handle_link(ctx: &mut ApplyContext) -> (r: Result<(), ApplyError>)
    ensures
        final(ctx).op == old(ctx).op && final(ctx).new_rev == old(ctx).new_rev && final(ctx).doc_id == old(ctx).doc_id,
        handler_post(r, final(ctx).tables@, link_spec(old(ctx).tables@, old(ctx).op@, old(ctx).new_rev@)),
{
    if ctx.op.targets.len() == 0 {
        return Err(ApplyError::MissingSplitTargets);
    }
    let src = ctx.op.targets[0].clone();
    let dst = match &ctx.op.target {
        Some(t) => t.clone(),
        None => return Err(ApplyError::MissingTarget(owned("link"))),
    };
    let mut attributes = match &ctx.op.patch {
        Some(p) => crate::attrs::attrs_clone(&p.attributes),
        None => attrs_new(),
    };
    let name = match attrs_shift_remove(&mut attributes, "relation_kind") {
        Some(v) => v,
        None => owned("references"),
    };
    let kind = RelationKind::parse(name.as_str());
    let custom_kind = match kind {
        RelationKind::Custom => Some(name),
        _ => None,
    };
    let rel = Relation { id: make_relation_id(&src, &dst), source: src.clone(), target: dst, kind, custom_kind, attributes };
    ctx.insert_relation(&rel)?;
    ctx.record_change(&src, ChangeType::RelationAdd, None, None, "link relation added")
}

pub fn handle_unlink(ctx: &mut ApplyContext) -> (r: Result<(), ApplyError>)
    ensures
        final(ctx).op == old(ctx).op && final(ctx).new_rev == old(ctx).new_rev && final(ctx).doc_id == old(ctx).doc_id,
        handler_post(r, final(ctx).tables@, unlink_spec(old(ctx).tables@, old(ctx).op@, old(ctx).new_rev@)),
{
    if ctx.op.targets.len() == 0 {
        return Err(ApplyError::MissingSplitTargets);
    }
    let src = ctx.op.targets[0].clone();
    let dst = match &ctx.op.target {
        Some(t) => t.clone(),
        None => return Err(ApplyError::MissingTarget(owned("unlink"))),
    };
    let rid = make_relation_id(&src, &dst);
    ctx.delete_relation(rid.as_str());
    ctx.record_change(&src, ChangeType::RelationRemove, None, None, "link relation removed")
}

/// The branch name of `op` (see `branch_name`).
pub fn resolve_branch_name(op: &Operation) -> (r: Option<String>)
    ensures
        opt_str_view(r) == branch_name(op@),
{
    let from_attr = match &op.patch {
        Some(p) => attrs_get(&p.attributes, "branch"),
        None => None,
    };
    match from_attr {
        Some(b) => Some(b),
        None => crate::node::clone_opt_string(&op.reason),
    }
}

pub fn handle_branch(ctx: &mut ApplyContext) -> (r: Result<(), ApplyError>)
    ensures
        *final(ctx) == *old(ctx),
        handler_post(r, final(ctx).tables@, branch_spec_check(old(ctx).tables@, old(ctx).op@)),
{
    let name = match resolve_branch_name(ctx.op) {
        Some(b) => b,
        None => {
            return Err(ApplyError::Invalid(owned(
                "branch op needs a branch name (patch.attributes[\"branch\"] or reason)",
            )));
        },
    };
    if blank(name.as_str()) || str_eq(name.as_str(), "main") {
        let mut m = owned("branch name must be non-empty and not 'main' (got ");
        let q = debug_quoted(name.as_str());
        m.append(q.as_str());
        m.append(")");
        return Err(ApplyError::Invalid(m));
    }
    Ok(())
}

} // verus!
