//! The logic behind the command-line and desktop commands: kind names,
//! one-line previews, snapshot diffs between revisions, seeding and
//! scaffolding documents.

use vstd::prelude::*;
use crate::branching::{
    branch_head, branch_head_spec, head_branch, head_branch_spec, list_revisions, node_at, revisions_by_time,
    revs_view, last_with,
};
use crate::history::{insert_id, insert_sorted_id};
use crate::export::{is_newline, strip_cr};
use crate::history::{sorted_ids, touched_ids};
use crate::node::{kind_from_text, Node, NodeKind, NodeV};
use crate::store::{clone_nodes, doc_tables, first_pos, lemma_first_pos, nodes_view, Store};
use crate::text::{debug_quoted, debug_text_of, owned, push_char, str_eq, strs_view};
use crate::tree::{trim, trimmed};
use crate::id::{NodeId, OpId, RevisionId};
use crate::model::{Document, DocumentV, OperationType, Operation, OperationV, Patch, PatchV, Revision, RevisionV};
use crate::provenance::{ActorKind, Provenance};
use crate::store::{
    fk_msg, has_node, head_spec, insert_node_spec, insert_revision_spec, list_nodes_spec, node_row_of,
    save_snapshot_spec, with_tables, last_snapshot_time, doc_index, StoreError, StoreErrorV,
    unique_nodes_msg, DocTablesV,
};
use crate::text::{decimal, decimal_string, opt_str_view};

verus! {

/// The kind named `s` in kebab case; any other name is refused.
pub fn parse_kind(s: &str) -> (r: Result<NodeKind, String>)
    ensures
        match kind_from_text(s@) {
            Some(k) => r matches Ok(x) && x == k,
            None => r matches Err(m) && m@ == "unknown kind: "@ + s@,
        },
{
    match NodeKind::parse(s) {
        Some(k) => Ok(k),
        None => {
            let mut m = owned("unknown kind: ");
            m.append(s);
            Err(m)
        },
    }
}

/// The first line of `s` as `str::lines` yields it (`""` when there is none).
pub open spec fn first_line(s: Seq<char>) -> Seq<char> {
    let p = first_pos(s, is_newline());
    if p < 0 { s } else { strip_cr(s.take(p)) }
}

/// The longest a preview gets before it is cut.
pub open spec fn preview_width() -> nat {
    80
}

/// The trimmed first line of `s`, cut to 80 characters and marked `…` when cut.
pub open spec fn preview_spec(s: Seq<char>) -> Seq<char> {
    let l = trim(first_line(s));
    if l.len() > preview_width() { l.take(preview_width() as int) + "…"@ } else { l }
}

/// A one-line preview of `s`.
pub fn preview(s: &str) -> (r: String)
    ensures
        r@ == preview_spec(s@),
{
    let n = s.unicode_len();
    let mut p: usize = 0;
    while p < n && s.get_char(p) != '\n'
        invariant
            p <= n,
            n == s@.len(),
            forall|j: int| 0 <= j < p ==> !is_newline()(#[trigger] s@[j]),
        decreases n - p,
    {
        p = p + 1;
    }
    proof {
        lemma_first_pos(s@, is_newline());
        let q = first_pos(s@, is_newline());
        if p < n {
            assert(is_newline()(s@[p as int]));
            if q >= 0 && q != p {
                if q < p {
                    assert(!is_newline()(s@[q]));
                }
            }
            assert(q == p as int);
        } else {
            assert(q < 0) by {
                if q >= 0 {
                    assert(!is_newline()(s@[q]));
                }
            }
        }
    }
    let mut end = p;
    if p < n && p > 0 && s.get_char(p - 1) == '\r' {
        end = p - 1;
    }
    let line = s.substring_char(0, end);
    proof {
        if p < n {
            if p > 0 && s@[p - 1] == '\r' {
                assert(s@.take(p as int).last() == '\r');
                assert(line@ =~= s@.take(p as int).drop_last());
            } else {
                assert(line@ =~= s@.take(p as int));
            }
            assert(line@ == first_line(s@));
        } else {
            assert(line@ =~= s@);
        }
    }
    let t = trimmed(line);
    let len = t.as_str().unicode_len();
    if len > 80 {
        let mut out = owned(t.as_str().substring_char(0, 80));
        out.append("…");
        out
    } else {
        t
    }
}

/// The content a snapshot holds for node `id`: that of the last node with
/// the id, as a map built from the list keeps it.
pub open spec fn content_in(nodes: Seq<NodeV>, id: Seq<char>) -> Option<Seq<char>> {
    match last_with(nodes, id) {
        Some(n) => Some(n.content),
        None => None,
    }
}

/// How a node differs between two snapshots.
#[derive(Debug, Clone, Copy, PartialEq, Eq, Structural)]
pub enum DiffStatus {
    Added,
    Removed,
    Changed,
    Unchanged,
}

pub open spec fn status_of(before: Option<Seq<char>>, after: Option<Seq<char>>) -> DiffStatus {
    match (before, after) {
        (None, _) => DiffStatus::Added,
        (Some(_), None) => DiffStatus::Removed,
        (Some(a), Some(b)) => if a == b { DiffStatus::Unchanged } else { DiffStatus::Changed },
    }
}

impl DiffStatus {
    /// The status word a report shows.
    pub fn as_str(&self) -> (r: &'static str)
        ensures
            r@ == status_text(*self),
    {
        match self {
            DiffStatus::Added => "added",
            DiffStatus::Removed => "removed",
            DiffStatus::Changed => "changed",
            DiffStatus::Unchanged => "unchanged",
        }
    }
}

pub open spec fn status_text(s: DiffStatus) -> Seq<char> {
    match s {
        DiffStatus::Added => "added"@,
        DiffStatus::Removed => "removed"@,
        DiffStatus::Changed => "changed"@,
        DiffStatus::Unchanged => "unchanged"@,
    }
}

/// One node id of a snapshot diff with its content on either side.
#[derive(Debug)]
pub struct DiffEntry {
    pub node: String,
    pub status: DiffStatus,
    pub before: Option<String>,
    pub after: Option<String>,
}

pub struct DiffEntryV {
    pub node: Seq<char>,
    pub status: DiffStatus,
    pub before: Option<Seq<char>>,
    pub after: Option<Seq<char>>,
}

impl View for DiffEntry {
    type V = DiffEntryV;

    open spec fn view(&self) -> DiffEntryV {
        DiffEntryV {
            node: self.node@,
            status: self.status,
            before: crate::text::opt_str_view(self.before),
            after: crate::text::opt_str_view(self.after),
        }
    }
}

/// The diff entry of node `id` between snapshots `from` and `to`.
pub open spec fn entry_spec(from: Seq<NodeV>, to: Seq<NodeV>, id: Seq<char>) -> DiffEntryV {
    let before = content_in(from, id);
    let after = content_in(to, id);
    DiffEntryV { node: id, status: status_of(before, after), before, after }
}

/// Every node id of either snapshot, ascending, with its entry.
pub open spec fn diff_spec(from: Seq<NodeV>, to: Seq<NodeV>) -> Seq<DiffEntryV> {
    sorted_ids(from + to).map_values(|id: Seq<char>| entry_spec(from, to, id))
}

/// How many entries have status `st`.
pub open spec fn count_status(entries: Seq<DiffEntryV>, st: DiffStatus) -> nat {
    entries.filter(has_status(st)).len()
}

pub open spec fn has_status(st: DiffStatus) -> spec_fn(DiffEntryV) -> bool {
    |e: DiffEntryV| e.status == st
}

/// A snapshot diff: one entry per node id, ascending, and the counts.
#[derive(Debug)]
pub struct SnapshotDiff {
    pub entries: Vec<DiffEntry>,
    pub added: usize,
    pub removed: usize,
    pub changed: usize,
    pub unchanged: usize,
}

pub open spec fn entries_view(v: Seq<DiffEntry>) -> Seq<DiffEntryV> {
    v.map_values(|e: DiffEntry| e@)
}

fn content_of(nodes: &Vec<Node>, id: &str) -> (r: Option<String>)
    ensures
        crate::text::opt_str_view(r) == content_in(nodes_view(nodes@), id@),
{
    match node_at(nodes, id) {
        Some(n) => Some(n.content.clone()),
        None => None,
    }
}

fn status_for(before: &Option<String>, after: &Option<String>) -> (r: DiffStatus)
    ensures
        r == status_of(crate::text::opt_str_view(*before), crate::text::opt_str_view(*after)),
{
    match (before, after) {
        (None, _) => DiffStatus::Added,
        (Some(_), None) => DiffStatus::Removed,
        (Some(a), Some(b)) => if str_eq(a.as_str(), b.as_str()) {
            DiffStatus::Unchanged
        } else {
            DiffStatus::Changed
        },
    }
}

/// Compare two revision snapshots node by node.
pub fn diff_snapshots(from: &Vec<Node>, to: &Vec<Node>) -> (r: SnapshotDiff)
    ensures
        entries_view(r.entries@) == diff_spec(nodes_view(from@), nodes_view(to@)),
        r.added as nat == count_status(entries_view(r.entries@), DiffStatus::Added),
        r.removed as nat == count_status(entries_view(r.entries@), DiffStatus::Removed),
        r.changed as nat == count_status(entries_view(r.entries@), DiffStatus::Changed),
        r.unchanged as nat == count_status(entries_view(r.entries@), DiffStatus::Unchanged),
{
    let ghost fv = nodes_view(from@);
    let ghost tv = nodes_view(to@);
    let mut all = clone_nodes(from);
    let mut k: usize = 0;
    while k < to.len()
        invariant
            k <= to@.len(),
            fv == nodes_view(from@),
            tv == nodes_view(to@),
            nodes_view(all@) == fv + tv.take(k as int),
        decreases to@.len() - k,
    {
        let ghost prev = all@;
        all.push(to[k].clone());
        proof {
            assert(nodes_view(all@) =~= fv + tv.take(k + 1)) by {
                assert(nodes_view(all@) =~= nodes_view(prev).push(to@[k as int]@));
                assert(tv.take(k + 1) =~= tv.take(k as int).push(tv[k as int]));
            }
        }
        k = k + 1;
    }
    assert(tv.take(to@.len() as int) =~= tv);
    let ids = touched_ids(&all);
    let ghost idv = strs_view(ids@);
    let ghost spec = diff_spec(fv, tv);
    let mut entries: Vec<DiffEntry> = Vec::new();
    let mut added: usize = 0;
    let mut removed: usize = 0;
    let mut changed: usize = 0;
    let mut unchanged: usize = 0;
    let mut i: usize = 0;
    while i < ids.len()
        invariant
            i <= ids@.len(),
            idv == strs_view(ids@),
            idv == sorted_ids(fv + tv),
            fv == nodes_view(from@),
            tv == nodes_view(to@),
            spec == diff_spec(fv, tv),
            entries_view(entries@) == spec.take(i as int),
            added as nat == count_status(spec.take(i as int), DiffStatus::Added),
            removed as nat == count_status(spec.take(i as int), DiffStatus::Removed),
            changed as nat == count_status(spec.take(i as int), DiffStatus::Changed),
            unchanged as nat == count_status(spec.take(i as int), DiffStatus::Unchanged),
            added + removed + changed + unchanged == i,
        decreases ids@.len() - i,
    {
        let id = ids[i].as_str();
        let before = content_of(from, id);
        let after = content_of(to, id);
        let status = status_for(&before, &after);
        let e = DiffEntry { node: owned(id), status, before, after };
        assert(idv[i as int] == id@);
        assert(e@ == spec[i as int]);
        let ghost prev = entries@;
        entries.push(e);
        proof {
            assert(spec.take(i + 1) =~= spec.take(i as int).push(spec[i as int]));
            assert(entries_view(entries@) =~= entries_view(prev).push(e@));
            lemma_count_push(spec.take(i as int), spec[i as int]);
        }
        match status {
            DiffStatus::Added => {
                added = added + 1;
            },
            DiffStatus::Removed => {
                removed = removed + 1;
            },
            DiffStatus::Changed => {
                changed = changed + 1;
            },
            DiffStatus::Unchanged => {
                unchanged = unchanged + 1;
            },
        }
        i = i + 1;
    }
    assert(spec.take(ids@.len() as int) =~= spec);
    SnapshotDiff { entries, added, removed, changed, unchanged }
}

/// The head revision of document `doc_id`, which must have one.
pub fn current_head(store: &Store, doc_id: &str) -> (r: Result<String, String>)
    ensures
        match doc_tables(store@, doc_id@) {
            Some(t) if head_spec(t) is Some => r matches Ok(h) && h@ == head_spec(t)->0,
            _ => r matches Err(m) && m@ == "no head revision"@,
        },
{
    match store.head_revision(doc_id) {
        Some(h) => Ok(h),
        None => Err(owned("no head revision")),
    }
}

/// `n` in decimal with a leading `-` when negative.
pub open spec fn signed_decimal(n: int) -> Seq<char> {
    if n < 0 { "-"@ + decimal((-n) as nat) } else { decimal(n as nat) }
}

pub fn signed_decimal_string(n: i64) -> (r: String)
    ensures
        r@ == signed_decimal(n as int),
{
    if n < 0 {
        let m: u64 = (-(n as i128)) as u64;
        let mut out = owned("-");
        out.append(decimal_string(m).as_str());
        out
    } else {
        decimal_string(n as u64)
    }
}

/// The clock reading in milliseconds since the Unix epoch
/// (`chrono::Utc::now().timestamp_millis()`); nothing is promised of it.
#[verifier::external_body]
pub(crate) fn now_millis() -> (r: i64) {
    chrono::Utc::now().timestamp_millis()
}

/// The attribution of an edit made in the desktop editor.
pub open spec fn desktop_actor(p: Provenance) -> bool {
    p matches Provenance::Operation { actor, .. } && actor.kind == ActorKind::Human
        && opt_str_view(actor.id) == Some("desktop"@) && actor.agent is None && actor.model is None
}

/// `op` is the desktop editor's operation of type `op_type` on `target`
/// against revision `head`: its id is `OP-` and a time in milliseconds.
pub open spec fn desktop_op_of(
    op: OperationV,
    head: Seq<char>,
    op_type: OperationType,
    target: Option<Seq<char>>,
    patch: Option<PatchV>,
    reason: Seq<char>,
) -> bool {
    &&& op.expected_revision == head
    &&& op.op_type == op_type
    &&& op.target == target
    &&& op.patch == patch
    &&& op.reason == Some(reason)
    &&& op.expected_hash is None
    &&& op.target_revision is None
    &&& op.targets.len() == 0
    &&& desktop_actor(op.actor)
    &&& exists|ms: int| op.id == "OP-"@ + #[trigger] signed_decimal(ms)
}

/// An operation of the desktop editor against the current head of
/// `doc_id`, named `OP-` and the clock in milliseconds.
pub fn build_op(
    store: &Store,
    doc_id: &str,
    op_type: OperationType,
    target: Option<NodeId>,
    patch: Option<Patch>,
    reason: &str,
) -> (r: Result<Operation, String>)
    ensures
        match doc_tables(store@, doc_id@) {
            Some(t) if head_spec(t) is Some => r matches Ok(op) && desktop_op_of(
                op@,
                head_spec(t)->0,
                op_type,
                crate::node::opt_id_view(target),
                crate::store::opt_patch_view(patch),
                reason@,
            ),
            _ => r matches Err(m) && m@ == "no head revision"@,
        },
{
    let head = current_head(store, doc_id)?;
    let ms = now_millis();
    let mut id = owned("OP-");
    id.append(signed_decimal_string(ms).as_str());
    let op = Operation {
        id: OpId::from_string(id),
        op_type,
        target,
        expected_revision: RevisionId::from_string(head),
        expected_hash: None,
        target_revision: None,
        targets: Vec::new(),
        actor: Provenance::human(Some(owned("desktop"))),
        patch,
        reason: Some(owned(reason)),
    };
    proof {
        reveal_strlit("desktop");
        assert(op@.id == "OP-"@ + signed_decimal(ms as int));
        assert(op@.targets =~= Seq::<Seq<char>>::empty());
    }
    Ok(op)
}

/// The attribution of an edit made from the command line.
pub open spec fn cli_actor(p: Provenance) -> bool {
    p matches Provenance::Operation { actor, .. } && actor.kind == ActorKind::Human
        && opt_str_view(actor.id) == Some("cli"@) && actor.agent is None && actor.model is None
}

/// A branch may not be called `main` or be blank.
pub open spec fn bad_branch_name(name: Seq<char>) -> bool {
    trim(name).len() == 0 || name == "main"@
}

/// Refuse a blank branch name or `main`.
pub fn check_branch_name(name: &str) -> (r: Result<(), String>)
    ensures
        bad_branch_name(name@) ==> (r matches Err(m)
            && m@ == "branch name must be non-empty and not 'main' (got "@ + debug_text_of(name@) + ")"@),
        !bad_branch_name(name@) ==> r is Ok,
{
    proof {
        reveal_strlit("main");
    }
    if trimmed(name).unicode_len() == 0 || str_eq(name, "main") {
        let mut m = owned("branch name must be non-empty and not 'main' (got ");
        m.append(debug_quoted(name).as_str());
        m.append(")");
        return Err(m);
    }
    Ok(())
}

/// The command line's branch operation: tag the head of `doc_id` with
/// branch `name`, as operation `OP-branch-` and the name. A blank name or
/// `main` is refused before the store is read.
pub fn cli_branch_op(store: &Store, doc_id: &str, name: &str, reason: Option<String>) -> (r: Result<Operation, String>)
    ensures
        bad_branch_name(name@) ==> (r matches Err(m)
            && m@ == "branch name must be non-empty and not 'main' (got "@ + debug_text_of(name@) + ")"@),
        !bad_branch_name(name@) ==> match doc_tables(store@, doc_id@) {
            Some(t) if head_spec(t) is Some => r matches Ok(op) && {
                &&& op@.id == "OP-branch-"@ + name@
                &&& op@.op_type == OperationType::Branch
                &&& op@.target is None
                &&& op@.targets.len() == 0
                &&& op@.expected_revision == head_spec(t)->0
                &&& op@.expected_hash is None
                &&& op@.target_revision is None
                &&& op@.patch == Some(PatchV { attributes: seq![("branch"@, name@)], ..crate::editor::empty_patch() })
                &&& op@.reason == opt_str_view(reason)
                &&& cli_actor(op@.actor)
            },
            _ => r matches Err(m) && m@ == "no head revision"@,
        },
{
    check_branch_name(name)?;
    let head = current_head(store, doc_id)?;
    let mut id = owned("OP-branch-");
    id.append(name);
    let mut patch = Patch::default();
    crate::attrs::attrs_insert(&mut patch.attributes, owned("branch"), owned(name));
    let op = Operation {
        id: OpId::from_string(id),
        op_type: OperationType::Branch,
        target: None,
        expected_revision: RevisionId::from_string(head),
        expected_hash: None,
        target_revision: None,
        targets: Vec::new(),
        actor: Provenance::human(Some(owned("cli"))),
        patch: Some(patch),
        reason,
    };
    proof {
        reveal_strlit("cli");
        reveal_strlit("branch");
        assert(op@.targets =~= Seq::<Seq<char>>::empty());
        assert(patch@.attributes =~= seq![("branch"@, name@)]);
    }
    Ok(op)
}

/// A link or unlink operation of the desktop editor between `source` and
/// `target`, against the current head of `doc_id`.
pub fn relation_op(
    store: &Store,
    doc_id: &str,
    op_type: OperationType,
    source: &str,
    target: &str,
    reason: &str,
) -> (r: Result<Operation, String>)
    ensures
        match doc_tables(store@, doc_id@) {
            Some(t) if head_spec(t) is Some => r matches Ok(op) && {
                &&& op@.expected_revision == head_spec(t)->0
                &&& op@.op_type == op_type
                &&& op@.target == Some(target@)
                &&& op@.targets == seq![source@]
                &&& op@.patch is None
                &&& op@.reason == Some(reason@)
                &&& op@.expected_hash is None
                &&& op@.target_revision is None
                &&& desktop_actor(op@.actor)
                &&& exists|ms: int| op@.id == "OP-"@ + signed_decimal(ms)
            },
            _ => r matches Err(m) && m@ == "no head revision"@,
        },
{
    let head = current_head(store, doc_id)?;
    let ms = now_millis();
    let mut id = owned("OP-");
    id.append(signed_decimal_string(ms).as_str());
    let mut targets: Vec<NodeId> = Vec::new();
    targets.push(NodeId::from_validated(source));
    let op = Operation {
        id: OpId::from_string(id),
        op_type,
        target: Some(NodeId::from_validated(target)),
        expected_revision: RevisionId::from_string(head),
        expected_hash: None,
        target_revision: None,
        targets,
        actor: Provenance::human(Some(owned("desktop"))),
        patch: None,
        reason: Some(owned(reason)),
    };
    proof {
        reveal_strlit("desktop");
        assert(op@.id == "OP-"@ + signed_decimal(ms as int));
        assert(op@.targets =~= seq![source@]);
    }
    Ok(op)
}

/// The type name an agent's operation reason carries (`Create`, `Update`, ...).
pub open spec fn op_type_label(k: OperationType) -> Seq<char> {
    match k {
        OperationType::Create => "Create"@,
        OperationType::Update => "Update"@,
        OperationType::Delete => "Delete"@,
        OperationType::Move => "Move"@,
        OperationType::Rename => "Rename"@,
        OperationType::Replace => "Replace"@,
        OperationType::Split => "Split"@,
        OperationType::Merge => "Merge"@,
        OperationType::Link => "Link"@,
        OperationType::Unlink => "Unlink"@,
        OperationType::Revert => "Revert"@,
        OperationType::Branch => "Branch"@,
    }
}

fn op_type_label_str(k: OperationType) -> (r: &'static str)
    ensures
        r@ == op_type_label(k),
{
    match k {
        OperationType::Create => "Create",
        OperationType::Update => "Update",
        OperationType::Delete => "Delete",
        OperationType::Move => "Move",
        OperationType::Rename => "Rename",
        OperationType::Replace => "Replace",
        OperationType::Split => "Split",
        OperationType::Merge => "Merge",
        OperationType::Link => "Link",
        OperationType::Unlink => "Unlink",
        OperationType::Revert => "Revert",
        OperationType::Branch => "Branch",
    }
}

/// An agent's edit of `target` is attributed to the AI agent `mcp`.
pub open spec fn agent_actor(p: Provenance) -> bool {
    p matches Provenance::Operation { actor, .. } && actor.kind == ActorKind::Ai && actor.id is None
        && opt_str_view(actor.agent) == Some("mcp"@) && actor.model is None
}

/// An AI agent's operation on node `target` against the current head of
/// `doc_id`, with `content` as its patch when given.
pub fn agent_op(store: &Store, doc_id: &str, op_type: OperationType, target: &str, content: Option<String>) -> (r: Result<Operation, String>)
    ensures
        match doc_tables(store@, doc_id@) {
            Some(t) if head_spec(t) is Some => r matches Ok(op) && {
                &&& op@.expected_revision == head_spec(t)->0
                &&& op@.op_type == op_type
                &&& op@.target == Some(target@)
                &&& op@.targets.len() == 0
                &&& op@.patch == match content {
                    Some(c) => Some(PatchV {
                        content: Some(c@),
                        title: None,
                        semantic_type: None,
                        kind: None,
                        position: None,
                        attributes: Seq::empty(),
                    }),
                    None => None,
                }
                &&& op@.reason == Some("mcp "@ + op_type_label(op_type) + " "@ + target@)
                &&& op@.expected_hash is None
                &&& op@.target_revision is None
                &&& agent_actor(op@.actor)
                &&& exists|ms: int| op@.id == "OP-"@ + signed_decimal(ms)
            },
            _ => r matches Err(m) && m@ == "no head revision"@,
        },
{
    let head = current_head(store, doc_id)?;
    let ms = now_millis();
    let mut id = owned("OP-");
    id.append(signed_decimal_string(ms).as_str());
    let patch = match content {
        Some(c) => Some(Patch { content: Some(c), ..Patch::default() }),
        None => None,
    };
    let mut reason = owned("mcp ");
    reason.append(op_type_label_str(op_type));
    reason.append(" ");
    reason.append(target);
    let op = Operation {
        id: OpId::from_string(id),
        op_type,
        target: Some(NodeId::from_validated(target)),
        expected_revision: RevisionId::from_string(head),
        expected_hash: None,
        target_revision: None,
        targets: Vec::new(),
        actor: Provenance::ai(owned("mcp"), None),
        patch,
        reason: Some(reason),
    };
    proof {
        reveal_strlit("mcp");
        assert(op@.id == "OP-"@ + signed_decimal(ms as int));
        assert(op@.targets =~= Seq::<Seq<char>>::empty());
    }
    Ok(op)
}

/// The document header a seeded document gets.
pub open spec fn seed_document(doc: Seq<char>, title: Seq<char>) -> DocumentV {
    DocumentV { id: doc, title, root_node: "root"@, version: crate::model::default_version_text() }
}

/// The root section a seeded document gets: titled with the document title.
pub open spec fn root_node_spec(title: Seq<char>) -> NodeV {
    NodeV {
        id: "root"@,
        kind: NodeKind::Section,
        parent: None,
        position: 0,
        semantic_type: None,
        content: title,
        attributes: Seq::empty(),
    }
}

/// What seeding document `doc` with a root titled `title` does to the store
/// `before`, giving `after`.
pub open spec fn seed_root_post(r: Result<(), StoreError>, before: Seq<crate::store::DocTablesV>, after: Seq<crate::store::DocTablesV>, doc: Seq<char>, title: Seq<char>) -> bool {
    match doc_tables(before, doc) {
        Some(t) => if has_node(t, "root"@) {
            r matches Err(e) && e@ == StoreErrorV::Constraint(unique_nodes_msg()) && after == before
        } else {
            r is Ok && after == with_tables(before, doc, DocTablesV {
                doc: seed_document(doc, title),
                updated_at: doc_tables(after, doc)->0.updated_at,
                nodes: t.nodes.push(node_row_of(root_node_spec(title))),
                ..t
            })
        },
        None => {
            &&& r is Ok
            &&& after.len() == before.len() + 1
            &&& after.drop_last() == before
            &&& after.last().doc == seed_document(doc, title)
            &&& after.last().nodes == seq![node_row_of(root_node_spec(title))]
            &&& after.last().relations.len() == 0
            &&& after.last().revisions.len() == 0
            &&& after.last().changes.len() == 0
            &&& after.last().operations.len() == 0
            &&& after.last().snapshots.len() == 0
        },
    }
}

/// Create (or retitle) document `doc_id` and give it a root section titled
/// `title`; refused, changing nothing, when the root exists.
pub fn seed_root(store: &mut Store, doc_id: &str, title: &str) -> (r: Result<(), StoreError>)
    ensures
        seed_root_post(r, old(store)@, final(store)@, doc_id@, title@),
{
    let ghost s0 = store@;
    proof {
        reveal_strlit("root");
        crate::store::lemma_doc_index(s0, doc_id@);
    }
    match store.tables(doc_id) {
        Some(t) => {
            if t.get_node("root").is_some() {
                return Err(StoreError::Constraint(owned("UNIQUE constraint failed: nodes.doc_id, nodes.id")));
            }
        },
        None => {},
    }
    let doc = Document::new(doc_id, title, NodeId::from_validated("root"));
    store.upsert_document(&doc);
    let ghost s1 = store@;
    proof {
        match doc_tables(s0, doc_id@) {
            Some(t) => {
                crate::store::lemma_doc_index_update(s0, doc_id@, s1[doc_index(s0, doc_id@)]);
                assert(s1 == s0.update(doc_index(s0, doc_id@), s1[doc_index(s0, doc_id@)]));
            },
            None => {
                assert(doc_index(s1, doc_id@) == s0.len());
            },
        }
    }
    let mut root = Node::new(NodeId::from_validated("root"), NodeKind::Section);
    root.content = owned(title);
    let r = store.insert_node(doc_id, &root);
    proof {
        assert(root@ == root_node_spec(title@));
        match doc_tables(s0, doc_id@) {
            Some(t) => {
                let i = doc_index(s0, doc_id@);
                assert(!has_node(t, "root"@));
                assert(doc_tables(s1, doc_id@) == Some(s1[i]));
                assert(s1[i].nodes == t.nodes);
                assert(!has_node(s1[i], "root"@));
                crate::store::lemma_doc_index_update(s1, doc_id@, store@[i]);
                assert(store@ == s1.update(i, store@[i]));
                assert(store@ =~= s0.update(i, store@[i]));
                assert(doc_tables(store@, doc_id@) == Some(store@[i]));
                assert(store@[i].nodes == t.nodes.push(node_row_of(root_node_spec(title@))));
                assert(store@[i].doc == seed_document(doc_id@, title@));
                assert(store@[i] == DocTablesV {
                    doc: seed_document(doc_id@, title@),
                    updated_at: doc_tables(store@, doc_id@)->0.updated_at,
                    nodes: t.nodes.push(node_row_of(root_node_spec(title@))),
                    ..t
                });
            },
            None => {
                let i = s0.len() as int;
                assert(doc_tables(s1, doc_id@) == Some(s1[i]));
                assert(!has_node(s1[i], "root"@));
                assert(store@ == s1.update(i, store@[i]));
                assert(store@.drop_last() =~= s0);
                assert(store@.last().nodes =~= seq![node_row_of(root_node_spec(title@))]);
            },
        }
    }
    r
}

/// The first revision of a seeded document, stamped `ts`.
pub open spec fn seed_revision(message: Seq<char>, ts: Seq<char>) -> RevisionV {
    RevisionV { id: "R000"@, parent: None, operation: "OP-000"@, created_at: ts, message: Some(message), branch: None }
}

/// What recording the first revision of document `doc` does.
pub open spec fn seed_revision_post(
    r: Result<(), StoreError>,
    before: Seq<crate::store::DocTablesV>,
    after: Seq<crate::store::DocTablesV>,
    doc: Seq<char>,
    message: Seq<char>,
) -> bool {
    match doc_tables(before, doc) {
        None => r matches Err(e) && e@ == StoreErrorV::Constraint(fk_msg()) && after == before,
        Some(t) => {
            let t2 = doc_tables(after, doc)->0;
            match insert_revision_spec(t, seed_revision(message, t2.revisions.last().rev.created_at), true) {
                Err(e) => r matches Err(x) && x@ == e && after == before,
                Ok(t1) => r is Ok && after == with_tables(before, doc, save_snapshot_spec(t1, "R000"@, list_nodes_spec(t), last_snapshot_time(t2))),
            }
        },
    }
}

/// Record `R000` as the head of document `doc_id` and snapshot its nodes.
pub fn seed_initial_revision(store: &mut Store, doc_id: &str, message: &str) -> (r: Result<(), StoreError>)
    ensures
        seed_revision_post(r, old(store)@, final(store)@, doc_id@, message@),
{
    let ghost s0 = store@;
    let rev = Revision {
        id: RevisionId::new("R000"),
        parent: None,
        operation: OpId::new("OP-000"),
        created_at: crate::store::now(),
        message: Some(owned(message)),
        branch: None,
    };
    proof {
        reveal_strlit("R000");
        reveal_strlit("OP-000");
        crate::store::lemma_doc_index(s0, doc_id@);
    }
    let ghost ts = rev.created_at@;
    assert(rev@ == seed_revision(message@, ts));
    store.insert_revision(doc_id, &rev, true)?;
    let ghost s1 = store@;
    let ghost i = doc_index(s0, doc_id@);
    let nodes = store.list_nodes(doc_id);
    proof {
        let t1 = s1[i];
        crate::store::lemma_doc_index_update(s0, doc_id@, t1);
        assert(doc_tables(s1, doc_id@) == Some(t1));
        assert(list_nodes_spec(t1) == list_nodes_spec(s0[i]));
    }
    store.save_snapshot(doc_id, "R000", &nodes);
    proof {
        let t3 = store@[i];
        crate::store::lemma_doc_index_update(s1, doc_id@, t3);
        assert(store@ == s1.update(i, t3));
        assert(store@ =~= s0.update(i, t3));
        assert(t3.revisions == s1[i].revisions);
        assert(t3.revisions.last().rev.created_at == ts);
    }
    Ok(())
}

pub open spec fn text_is(x: Seq<char>) -> spec_fn(Seq<char>) -> bool {
    |y: Seq<char>| y == x
}

/// The revision a diff starts from when none is given: the one listed just
/// before `to` (oldest first), or `to` itself when it is the first.
pub open spec fn default_from_spec(ids: Seq<Seq<char>>, to: Seq<char>) -> Result<Seq<char>, Seq<char>> {
    let p = first_pos(ids, text_is(to));
    if p < 0 {
        Err("revision "@ + to + " not found"@)
    } else if p == 0 {
        Ok(ids[0])
    } else {
        Ok(ids[p - 1])
    }
}

/// The ids of the revisions of document `doc`, oldest first.
pub open spec fn revision_ids(s: Seq<crate::store::DocTablesV>, doc: Seq<char>) -> Seq<Seq<char>> {
    match doc_tables(s, doc) {
        Some(t) => revisions_by_time(t).map_values(|r: RevisionV| r.id),
        None => Seq::empty(),
    }
}

/// The revision a diff up to `to_rev` starts from, among `ids` (oldest first).
pub fn previous_of(ids: &Vec<String>, to_rev: &str) -> (r: Result<String, String>)
    ensures
        match default_from_spec(strs_view(ids@), to_rev@) {
            Ok(x) => r matches Ok(y) && y@ == x,
            Err(m) => r matches Err(y) && y@ == m,
        },
{
    let ghost iv = strs_view(ids@);
    let mut i: usize = 0;
    while i < ids.len()
        invariant
            i <= ids@.len(),
            iv == strs_view(ids@),
            forall|j: int| 0 <= j < i ==> !text_is(to_rev@)(#[trigger] iv[j]),
        decreases ids@.len() - i,
    {
        if str_eq(ids[i].as_str(), to_rev) {
            proof {
                lemma_first_pos(iv, text_is(to_rev@));
                let q = first_pos(iv, text_is(to_rev@));
                assert(text_is(to_rev@)(iv[i as int]));
                if q != i {
                    if q >= 0 && q < i {
                        assert(!text_is(to_rev@)(iv[q]));
                    }
                }
                assert(q == i as int);
            }
            if i == 0 {
                return Ok(ids[0].clone());
            } else {
                return Ok(ids[i - 1].clone());
            }
        }
        i = i + 1;
    }
    proof {
        lemma_first_pos(iv, text_is(to_rev@));
        let q = first_pos(iv, text_is(to_rev@));
        if q >= 0 {
            assert(!text_is(to_rev@)(iv[q]));
        }
    }
    let mut m = owned("revision ");
    m.append(to_rev);
    m.append(" not found");
    Err(m)
}

/// The ids of `revs`, in order.
pub fn revision_id_list(revs: &Vec<Revision>) -> (r: Vec<String>)
    ensures
        strs_view(r@) == revs_view(revs@).map_values(|x: RevisionV| x.id),
{
    let mut out: Vec<String> = Vec::new();
    let mut i: usize = 0;
    while i < revs.len()
        invariant
            i <= revs@.len(),
            strs_view(out@) == revs_view(revs@).take(i as int).map_values(|x: RevisionV| x.id),
        decreases revs@.len() - i,
    {
        let ghost prev = out@;
        out.push(owned(revs[i].id.as_str()));
        proof {
            assert(revs_view(revs@)[i as int] == revs@[i as int]@);
            assert(strs_view(out@) =~= strs_view(prev).push(revs@[i as int].id@));
            assert(revs_view(revs@).take(i + 1) =~= revs_view(revs@).take(i as int).push(revs_view(revs@)[i as int]));
        }
        i = i + 1;
    }
    assert(revs_view(revs@).take(revs@.len() as int) =~= revs_view(revs@));
    out
}

/// The revision a diff of document `doc_id` up to `to_rev` starts from.
pub fn default_from_rev(store: &Store, doc_id: &str, to_rev: &str) -> (r: Result<String, String>)
    ensures
        match default_from_spec(revision_ids(store@, doc_id@), to_rev@) {
            Ok(x) => r matches Ok(y) && y@ == x,
            Err(m) => r matches Err(y) && y@ == m,
        },
{
    let revs = list_revisions(store, doc_id);
    let ids = revision_id_list(&revs);
    previous_of(&ids, to_rev)
}

/// A validation run that found `count` problems.
#[derive(Debug)]
pub struct ValidateFailure {
    pub count: usize,
}

/// The process exit code for `count` problems: the count, kept within
/// 1..=125 (126 and above are reserved by shells).
pub open spec fn exit_code_spec(count: nat) -> int {
    if count < 1 { 1 } else if count > 125 { 125 } else { count as int }
}

impl ValidateFailure {
    /// `{count} validation error(s)`.
    pub fn message(&self) -> (r: String)
        ensures
            r@ == decimal(self.count as nat) + " validation error(s)"@,
    {
        let mut s = decimal_string(self.count as u64);
        s.append(" validation error(s)");
        s
    }

    /// The exit code that reports this failure.
    pub fn exit_code(&self) -> (r: i32)
        ensures
            r as int == exit_code_spec(self.count as nat),
    {
        if self.count < 1 {
            1
        } else if self.count > 125 {
            125
        } else {
            self.count as i32
        }
    }
}

/// The distinct branch labels of `revs`, ascending.
pub open spec fn label_names(revs: Seq<RevisionV>) -> Seq<Seq<char>>
    decreases revs.len(),
{
    if revs.len() == 0 {
        Seq::empty()
    } else {
        let rest = label_names(revs.drop_last());
        match revs.last().branch {
            Some(b) => insert_id(rest, b),
            None => rest,
        }
    }
}

pub open spec fn labelled(label: Option<Seq<char>>) -> spec_fn(RevisionV) -> bool {
    |r: RevisionV| r.branch == label
}

/// One branch of a document: its tip, how many revisions carry its label
/// (`main`: no label) and whether the head is on it.
#[derive(Debug)]
pub struct BranchInfo {
    pub name: String,
    pub head: Option<String>,
    pub revisions: usize,
    pub current: bool,
}

pub struct BranchInfoV {
    pub name: Seq<char>,
    pub head: Option<Seq<char>>,
    pub revisions: nat,
    pub current: bool,
}

impl View for BranchInfo {
    type V = BranchInfoV;

    open spec fn view(&self) -> BranchInfoV {
        BranchInfoV { name: self.name@, head: opt_str_view(self.head), revisions: self.revisions as nat, current: self.current }
    }
}

pub open spec fn ok_of(r: Result<Seq<char>, crate::branching::BranchErrorV>) -> Option<Seq<char>> {
    match r {
        Ok(x) => Some(x),
        Err(_) => None,
    }
}

/// The revisions of document `doc`, oldest first.
pub open spec fn doc_revisions(s: Seq<crate::store::DocTablesV>, doc: Seq<char>) -> Seq<RevisionV> {
    match doc_tables(s, doc) {
        Some(t) => revisions_by_time(t),
        None => Seq::empty(),
    }
}

/// The branch the head of document `doc` is on (`None`: main).
pub open spec fn current_label(s: Seq<crate::store::DocTablesV>, doc: Seq<char>) -> Option<Seq<char>> {
    match doc_tables(s, doc) {
        Some(t) => head_branch_spec(t),
        None => None,
    }
}

pub open spec fn branch_info_spec(s: Seq<crate::store::DocTablesV>, doc: Seq<char>, name: Seq<char>, label: Option<Seq<char>>) -> BranchInfoV {
    BranchInfoV {
        name,
        head: ok_of(branch_head_spec(s, doc, name)),
        revisions: doc_revisions(s, doc).filter(labelled(label)).len(),
        current: current_label(s, doc) == label,
    }
}

/// `main` first, then every labelled branch by name.
pub open spec fn overview_spec(s: Seq<crate::store::DocTablesV>, doc: Seq<char>) -> Seq<BranchInfoV> {
    seq![branch_info_spec(s, doc, "main"@, None)]
        + label_names(doc_revisions(s, doc)).map_values(|n: Seq<char>| branch_info_spec(s, doc, n, Some(n)))
}

fn count_labelled(revs: &Vec<Revision>, label: Option<&str>) -> (r: usize)
    ensures
        r as nat == revs_view(revs@).filter(labelled(match label { Some(l) => Some(l@), None => None })).len(),
{
    let ghost all = revs_view(revs@);
    let ghost lv = match label { Some(l) => Some(l@), None => None };
    let mut n: usize = 0;
    let mut i: usize = 0;
    while i < revs.len()
        invariant
            i <= revs@.len(),
            all == revs_view(revs@),
            lv == match label { Some(l) => Some(l@), None => None::<Seq<char>> },
            n as nat == all.take(i as int).filter(labelled(lv)).len(),
            n <= i,
        decreases revs@.len() - i,
    {
        let b = &revs[i].branch;
        let same = match (b, label) {
            (Some(x), Some(y)) => str_eq(x.as_str(), y),
            (None, None) => true,
            _ => false,
        };
        proof {
            assert(all[i as int] == revs@[i as int]@);
            assert(all.take(i + 1) =~= all.take(i as int).push(all[i as int]));
            all.take(i as int).lemma_filter_push(all[i as int], labelled(lv));
            assert(same == labelled(lv)(all[i as int]));
        }
        if same {
            n = n + 1;
        }
        i = i + 1;
    }
    assert(all.take(revs@.len() as int) =~= all);
    n
}

fn branch_info(store: &Store, doc_id: &str, revs: &Vec<Revision>, current: &Option<String>, name: &str, label: Option<&str>) -> (r: BranchInfo)
    requires
        revs_view(revs@) == doc_revisions(store@, doc_id@),
        opt_str_view(*current) == current_label(store@, doc_id@),
    ensures
        r@ == branch_info_spec(store@, doc_id@, name@, match label { Some(l) => Some(l@), None => None }),
{
    let head = match branch_head(store, doc_id, name) {
        Ok(h) => Some(h),
        Err(_) => None,
    };
    let revisions = count_labelled(revs, label);
    let is_current = match (current, label) {
        (Some(c), Some(l)) => str_eq(c.as_str(), l),
        (None, None) => true,
        _ => false,
    };
    BranchInfo { name: owned(name), head, revisions, current: is_current }
}

/// Every branch of document `doc_id`: `main` first, then the labelled
/// branches by name.
pub fn branch_overview(store: &Store, doc_id: &str) -> (r: Vec<BranchInfo>)
    ensures
        r@.map_values(|b: BranchInfo| b@) == overview_spec(store@, doc_id@),
{
    let revs = list_revisions(store, doc_id);
    let current = head_branch(store, doc_id);
    let ghost rv = revs_view(revs@);
    assert(rv == doc_revisions(store@, doc_id@));
    assert(opt_str_view(current) == current_label(store@, doc_id@));
    let mut names: Vec<String> = Vec::new();
    let mut i: usize = 0;
    while i < revs.len()
        invariant
            i <= revs@.len(),
            rv == revs_view(revs@),
            strs_view(names@) == label_names(rv.take(i as int)),
        decreases revs@.len() - i,
    {
        assert(rv.take(i + 1).drop_last() =~= rv.take(i as int));
        assert(rv[i as int] == revs@[i as int]@);
        match &revs[i].branch {
            Some(b) => insert_sorted_id(&mut names, b.as_str()),
            None => {},
        }
        i = i + 1;
    }
    assert(rv.take(revs@.len() as int) =~= rv);
    proof {
        reveal_strlit("main");
    }
    let mut out: Vec<BranchInfo> = Vec::new();
    out.push(branch_info(store, doc_id, &revs, &current, "main", None));
    let ghost spec = overview_spec(store@, doc_id@);
    let ghost nv = strs_view(names@);
    let mut k: usize = 0;
    while k < names.len()
        invariant
            k <= names@.len(),
            nv == strs_view(names@),
            nv == label_names(doc_revisions(store@, doc_id@)),
            spec == overview_spec(store@, doc_id@),
            rv == revs_view(revs@),
            rv == doc_revisions(store@, doc_id@),
            opt_str_view(current) == current_label(store@, doc_id@),
            out@.map_values(|b: BranchInfo| b@) == spec.take(k + 1),
        decreases names@.len() - k,
    {
        let name = names[k].as_str();
        let info = branch_info(store, doc_id, &revs, &current, name, Some(name));
        let ghost prev = out@;
        out.push(info);
        proof {
            assert(nv[k as int] == name@);
            assert(spec[k + 1] == branch_info_spec(store@, doc_id@, name@, Some(name@)));
            assert(spec.take(k + 2) =~= spec.take(k + 1).push(spec[k + 1]));
            assert(out@.map_values(|b: BranchInfo| b@) =~= prev.map_values(|b: BranchInfo| b@).push(info@));
        }
        k = k + 1;
    }
    assert(spec.take(names@.len() + 1int) =~= spec);
    out
}

proof fn lemma_count_push(s: Seq<DiffEntryV>, e: DiffEntryV)
    ensures
        forall|st: DiffStatus| #[trigger] count_status(s.push(e), st) == count_status(s, st) + if e.status == st { 1nat } else { 0nat },
{
    assert forall|st: DiffStatus| #[trigger] count_status(s.push(e), st) == count_status(s, st) + if e.status == st { 1nat } else { 0nat } by {
        s.lemma_filter_push(e, has_status(st));
    }
}

} // verus!
