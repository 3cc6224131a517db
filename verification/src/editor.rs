//! The operations the desktop editor sends for one user edit: which patch
//! each edit carries and what it is recorded as, and the summary the editor
//! shows of an open document.

use vstd::prelude::*;
use crate::attrs::{attrs_insert, entry_insert, Entries};
use crate::commands::{build_op, current_head, desktop_actor, now_millis, parse_kind, signed_decimal, signed_decimal_string};
use crate::id::{NodeId, OpId, RevisionId};
use crate::model::{Operation, OperationType, OperationV, Patch, PatchV};
use crate::node::kind_from_text;
use crate::provenance::Provenance;
use crate::store::{doc_tables, head_spec, Store};
use crate::text::owned;

verus! {

/// A patch that changes only what its fields name.
pub open spec fn empty_patch() -> PatchV {
    PatchV { content: None, title: None, semantic_type: None, kind: None, position: None, attributes: Seq::empty() }
}

/// The `parent` attribute that places a node under `parent`, when one is given.
pub open spec fn parent_entries(parent: Option<Seq<char>>) -> Entries {
    match parent {
        Some(p) => seq![("parent"@, p)],
        None => Seq::empty(),
    }
}

/// `attrs` inserted one after the other into `base`.
pub open spec fn insert_all(base: Entries, attrs: Seq<(Seq<char>, Seq<char>)>) -> Entries
    decreases attrs.len(),
{
    if attrs.len() == 0 {
        base
    } else {
        let prev = insert_all(base, attrs.drop_last());
        entry_insert(prev, attrs.last().0, attrs.last().1)
    }
}

/// The result of an edit builder: the editor's operation on the head of
/// `doc_id` in store `s`, or "no head revision" when the document has none.
pub open spec fn edit_result(
    r: Result<Operation, String>,
    s: Seq<crate::store::DocTablesV>,
    doc: Seq<char>,
    op_type: OperationType,
    target: Option<Seq<char>>,
    patch: Option<PatchV>,
    reason: Seq<char>,
) -> bool {
    match doc_tables(s, doc) {
        Some(t) if head_spec(t) is Some => r matches Ok(op) && crate::commands::desktop_op_of(
            op@,
            head_spec(t)->0,
            op_type,
            target,
            patch,
            reason,
        ),
        _ => r matches Err(m) && m@ == "no head revision"@,
    }
}

fn with_parent(patch: &mut Patch, parent: Option<String>)
    ensures
        final(patch)@ == (PatchV {
            attributes: match parent {
                Some(p) => entry_insert(old(patch)@.attributes, "parent"@, p@),
                None => old(patch)@.attributes,
            },
            ..old(patch)@
        }),
{
    match parent {
        Some(p) => attrs_insert(&mut patch.attributes, owned("parent"), p),
        None => {},
    }
}

/// Replace the content of node `target`.
pub fn update_node_op(store: &Store, doc_id: &str, target: &str, content: String) -> (r: Result<Operation, String>)
    ensures
        edit_result(r, store@, doc_id@, OperationType::Update, Some(target@),
            Some(PatchV { content: Some(content@), ..empty_patch() }), "UI edit"@),
{
    let mut patch = Patch::default();
    patch.content = Some(content);
    build_op(store, doc_id, OperationType::Update, Some(NodeId::from_validated(target)), Some(patch), "UI edit")
}

/// Create node `id` of kind `kind` with `content`, under `parent` when one
/// is given (else detached at the document root). An unknown kind is
/// refused before anything else.
pub fn create_node_op(
    store: &Store,
    doc_id: &str,
    id: &str,
    kind: &str,
    content: String,
    parent: Option<String>,
) -> (r: Result<Operation, String>)
    ensures
        match kind_from_text(kind@) {
            None => r matches Err(m) && m@ == "unknown kind: "@ + kind@,
            Some(k) => edit_result(r, store@, doc_id@, OperationType::Create, Some(id@),
                Some(PatchV {
                    content: Some(content@),
                    semantic_type: Some(kind@),
                    kind: Some(k),
                    attributes: parent_entries(crate::text::opt_str_view(parent)),
                    ..empty_patch()
                }), "UI create"@),
        },
{
    let node_kind = parse_kind(kind)?;
    let mut patch = Patch::default();
    patch.content = Some(content);
    patch.semantic_type = Some(owned(kind));
    patch.kind = Some(node_kind);
    let ghost p = parent;
    with_parent(&mut patch, parent);
    proof {
        reveal_strlit("parent");
        assert(patch@.attributes =~= parent_entries(crate::text::opt_str_view(p)));
    }
    build_op(store, doc_id, OperationType::Create, Some(NodeId::from_validated(id)), Some(patch), "UI create")
}

/// Delete node `target`.
pub fn delete_node_op(store: &Store, doc_id: &str, target: &str) -> (r: Result<Operation, String>)
    ensures
        edit_result(r, store@, doc_id@, OperationType::Delete, Some(target@), None, "UI delete"@),
{
    build_op(store, doc_id, OperationType::Delete, Some(NodeId::from_validated(target)), None, "UI delete")
}

/// Change the kind of node `target`; an unknown kind is refused first.
pub fn set_node_kind_op(store: &Store, doc_id: &str, target: &str, kind: &str) -> (r: Result<Operation, String>)
    ensures
        match kind_from_text(kind@) {
            None => r matches Err(m) && m@ == "unknown kind: "@ + kind@,
            Some(k) => edit_result(r, store@, doc_id@, OperationType::Update, Some(target@),
                Some(PatchV { kind: Some(k), ..empty_patch() }), "UI change kind"@),
        },
{
    let node_kind = parse_kind(kind)?;
    let mut patch = Patch::default();
    patch.kind = Some(node_kind);
    build_op(store, doc_id, OperationType::Update, Some(NodeId::from_validated(target)), Some(patch), "UI change kind")
}

/// Move node `target` to `new_position`, and under `new_parent` when one is
/// given (an empty name detaches it to the root).
pub fn move_node_op(
    store: &Store,
    doc_id: &str,
    target: &str,
    new_position: u32,
    new_parent: Option<String>,
) -> (r: Result<Operation, String>)
    ensures
        edit_result(r, store@, doc_id@, OperationType::Move, Some(target@),
            Some(PatchV {
                position: Some(new_position),
                attributes: parent_entries(crate::text::opt_str_view(new_parent)),
                ..empty_patch()
            }), "UI reorder"@),
{
    let mut patch = Patch::default();
    patch.position = Some(new_position);
    let ghost p = new_parent;
    with_parent(&mut patch, new_parent);
    proof {
        reveal_strlit("parent");
        assert(patch@.attributes =~= parent_entries(crate::text::opt_str_view(p)));
    }
    build_op(store, doc_id, OperationType::Move, Some(NodeId::from_validated(target)), Some(patch), "UI reorder")
}

/// Set the attributes `attrs` on node `target`, in the order given.
pub fn set_node_attributes_op(
    store: &Store,
    doc_id: &str,
    target: &str,
    attrs: Vec<(String, String)>,
) -> (r: Result<Operation, String>)
    ensures
        edit_result(r, store@, doc_id@, OperationType::Update, Some(target@),
            Some(PatchV { attributes: insert_all(Seq::empty(), attrs.deep_view()), ..empty_patch() }),
            "UI edit attributes"@),
{
    let mut patch = Patch::default();
    let n = attrs.len();
    let mut i: usize = 0;
    while i < n
        invariant
            n == attrs@.len(),
            i <= n,
            patch@ == (PatchV { attributes: insert_all(Seq::empty(), attrs.deep_view().take(i as int)), ..empty_patch() }),
        decreases n - i,
    {
        let k = attrs[i].0.clone();
        let v = attrs[i].1.clone();
        attrs_insert(&mut patch.attributes, k, v);
        proof {
            let d = attrs.deep_view();
            assert(d.take(i + 1).drop_last() =~= d.take(i as int));
            assert(d[i as int] == (attrs@[i as int].0@, attrs@[i as int].1@));
        }
        i = i + 1;
    }
    proof {
        assert(attrs.deep_view().take(n as int) =~= attrs.deep_view());
    }
    build_op(store, doc_id, OperationType::Update, Some(NodeId::from_validated(target)), Some(patch), "UI edit attributes")
}

/// Start a branch called `name` at the current head of `doc_id`: the
/// operation's id is `OP-branch-` and a time in milliseconds.
pub fn create_branch_op(store: &Store, doc_id: &str, name: &str) -> (r: Result<Operation, String>)
    ensures
        match doc_tables(store@, doc_id@) {
            Some(t) if head_spec(t) is Some => r matches Ok(op) && {
                &&& op@.expected_revision == head_spec(t)->0
                &&& op@.op_type == OperationType::Branch
                &&& op@.target is None
                &&& op@.targets.len() == 0
                &&& op@.patch == Some(PatchV { attributes: seq![("branch"@, name@)], ..empty_patch() })
                &&& op@.reason == Some("branch "@ + name@)
                &&& op@.expected_hash is None
                &&& op@.target_revision is None
                &&& desktop_actor(op@.actor)
                &&& exists|ms: int| op@.id == "OP-branch-"@ + #[trigger] signed_decimal(ms)
            },
            _ => r matches Err(m) && m@ == "no head revision"@,
        },
{
    let head = current_head(store, doc_id)?;
    let ms = now_millis();
    let mut id = owned("OP-branch-");
    id.append(signed_decimal_string(ms).as_str());
    let mut patch = Patch::default();
    attrs_insert(&mut patch.attributes, owned("branch"), owned(name));
    let mut reason = owned("branch ");
    reason.append(name);
    let op = Operation {
        id: OpId::from_string(id),
        op_type: OperationType::Branch,
        target: None,
        expected_revision: RevisionId::from_string(head),
        expected_hash: None,
        target_revision: None,
        targets: Vec::new(),
        actor: Provenance::human(Some(owned("desktop"))),
        patch: Some(patch),
        reason: Some(reason),
    };
    proof {
        reveal_strlit("desktop");
        reveal_strlit("branch");
        assert(op@.id == "OP-branch-"@ + signed_decimal(ms as int));
        assert(op@.targets =~= Seq::<Seq<char>>::empty());
        assert(patch@.attributes =~= seq![("branch"@, name@)]);
    }
    Ok(op)
}

/// What the editor shows of an open document.
#[derive(Debug)]
pub struct DocInfo {
    pub doc_id: String,
    pub title: String,
    pub head_revision: String,
    /// The root node, where the editor starts.
    pub entry: String,
}

/// The summary of document `doc_id` titled `title`: its head revision
/// (`R000` when it has none) and its root node (`root` when the document
/// is not in the store).
pub fn read_info(store: &Store, doc_id: &str, title: &str) -> (r: DocInfo)
    ensures
        r.doc_id@ == doc_id@,
        r.title@ == title@,
        r.head_revision@ == match doc_tables(store@, doc_id@) {
            Some(t) if head_spec(t) is Some => head_spec(t)->0,
            _ => "R000"@,
        },
        r.entry@ == match doc_tables(store@, doc_id@) {
            Some(t) => t.doc.root_node,
            None => "root"@,
        },
{
    let head_revision = match store.head_revision(doc_id) {
        Some(h) => h,
        None => owned("R000"),
    };
    let entry = match store.get_document(doc_id) {
        Some(d) => owned(d.root_node.as_str()),
        None => owned("root"),
    };
    DocInfo { doc_id: owned(doc_id), title: owned(title), head_revision, entry }
}

} // verus!
