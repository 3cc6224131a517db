//! The canonical document store: documents, nodes, relations, revisions,
//! changes, operations and snapshots, with typed CRUD access.
//!
//! Each document owns its tables. Reads and writes follow the semantics of
//! the relational schema the format describes: keyed inserts fail on a
//! duplicate key, updates and deletes touch every row that matches.

use vstd::prelude::*;
use crate::attrs::attr_entries;
use crate::id::{content_hash, content_hash_of, NodeId, OpId, RevisionId};
use crate::model::{
    clone_opt_rev, opt_rev_view, Change, ChangeV, Document, DocumentV, OperationType, Patch,
    PatchV, Relation, RelationV, Revision, RevisionV,
};
use crate::node::{clone_opt_id, clone_opt_string, opt_id_view, Node, NodeV};
use crate::provenance::{Provenance, ProvenanceV};
use crate::order::sort_nodes;
use crate::order::sorted_nodes;
use crate::text::{strs_view, lemma_map_push, lemma_take_push, opt_str_view, owned, push_char, str_eq};

verus! {

/// Errors raised by the store.
#[derive(Debug)]
pub enum StoreError {
    /// A keyed insert hit an existing key, or a row it needs is missing.
    Constraint(String),
    /// Stored data is not what the format allows.
    Integrity(String),
}

pub enum StoreErrorV {
    Constraint(Seq<char>),
    Integrity(Seq<char>),
}

impl View for StoreError {
    type V = StoreErrorV;

    open spec fn view(&self) -> StoreErrorV {
        match self {
            StoreError::Constraint(m) => StoreErrorV::Constraint(m@),
            StoreError::Integrity(m) => StoreErrorV::Integrity(m@),
        }
    }
}

/// A stored node plus the hash of its content at write time.
pub struct NodeRow {
    pub node: Node,
    pub content_hash: String,
}

pub struct NodeRowV {
    pub node: NodeV,
    pub hash: Seq<char>,
}

impl View for NodeRow {
    type V = NodeRowV;

    open spec fn view(&self) -> NodeRowV {
        NodeRowV { node: self.node@, hash: self.content_hash@ }
    }
}

/// A stored revision: its header, the head flag and every parent in order.
pub struct RevisionRow {
    pub revision: Revision,
    pub is_head: bool,
    pub parents: Vec<RevisionId>,
}

pub struct RevisionRowV {
    pub rev: RevisionV,
    pub is_head: bool,
    pub parents: Seq<Seq<char>>,
}

pub open spec fn rev_ids_view(v: Seq<RevisionId>) -> Seq<Seq<char>> {
    v.map_values(|r: RevisionId| r@)
}

impl View for RevisionRow {
    type V = RevisionRowV;

    open spec fn view(&self) -> RevisionRowV {
        RevisionRowV {
            rev: self.revision@,
            is_head: self.is_head,
            parents: rev_ids_view(self.parents@),
        }
    }
}

/// The audit record of an applied operation.
pub struct OperationRecord {
    pub id: OpId,
    pub op_type: OperationType,
    pub target: Option<NodeId>,
    pub expected_revision: RevisionId,
    pub target_revision: Option<RevisionId>,
    pub actor: Provenance,
    pub patch: Option<Patch>,
    pub reason: Option<String>,
    pub created_at: String,
}

pub struct OperationRecordV {
    pub id: Seq<char>,
    pub op_type: OperationType,
    pub target: Option<Seq<char>>,
    pub expected_revision: Seq<char>,
    pub target_revision: Option<Seq<char>>,
    pub actor: ProvenanceV,
    pub patch: Option<PatchV>,
    pub reason: Option<Seq<char>>,
    pub created_at: Seq<char>,
}

pub open spec fn opt_patch_view(p: Option<Patch>) -> Option<PatchV> {
    match p {
        Some(p) => Some(p@),
        None => None,
    }
}

impl View for OperationRecord {
    type V = OperationRecordV;

    open spec fn view(&self) -> OperationRecordV {
        OperationRecordV {
            id: self.id@,
            op_type: self.op_type,
            target: opt_id_view(self.target),
            expected_revision: self.expected_revision@,
            target_revision: opt_rev_view(self.target_revision),
            actor: self.actor@,
            patch: opt_patch_view(self.patch),
            reason: opt_str_view(self.reason),
            created_at: self.created_at@,
        }
    }
}

/// The full node list saved for one revision.
pub struct Snapshot {
    pub revision: String,
    pub created_at: String,
    pub nodes: Vec<Node>,
}

pub struct SnapshotV {
    pub revision: Seq<char>,
    pub created_at: Seq<char>,
    pub nodes: Seq<NodeV>,
}

pub open spec fn nodes_view(v: Seq<Node>) -> Seq<NodeV> {
    v.map_values(|n: Node| n@)
}

impl View for Snapshot {
    type V = SnapshotV;

    open spec fn view(&self) -> SnapshotV {
        SnapshotV { revision: self.revision@, created_at: self.created_at@, nodes: nodes_view(self.nodes@) }
    }
}

/// Everything stored for one document.
pub struct DocTables {
    pub doc: Document,
    pub created_at: String,
    pub updated_at: String,
    pub nodes: Vec<NodeRow>,
    pub relations: Vec<Relation>,
    pub revisions: Vec<RevisionRow>,
    pub changes: Vec<Change>,
    pub operations: Vec<OperationRecord>,
    pub snapshots: Vec<Snapshot>,
}

pub struct DocTablesV {
    pub doc: DocumentV,
    pub created_at: Seq<char>,
    pub updated_at: Seq<char>,
    pub nodes: Seq<NodeRowV>,
    pub relations: Seq<RelationV>,
    pub revisions: Seq<RevisionRowV>,
    pub changes: Seq<ChangeV>,
    pub operations: Seq<OperationRecordV>,
    pub snapshots: Seq<SnapshotV>,
}

impl View for DocTables {
    type V = DocTablesV;

    open spec fn view(&self) -> DocTablesV {
        DocTablesV {
            doc: self.doc@,
            created_at: self.created_at@,
            updated_at: self.updated_at@,
            nodes: self.nodes@.map_values(|r: NodeRow| r@),
            relations: self.relations@.map_values(|r: Relation| r@),
            revisions: self.revisions@.map_values(|r: RevisionRow| r@),
            changes: self.changes@.map_values(|c: Change| c@),
            operations: self.operations@.map_values(|o: OperationRecord| o@),
            snapshots: self.snapshots@.map_values(|s: Snapshot| s@),
        }
    }
}

/// The store: one table set per document, in creation order.
pub struct Store {
    docs: Vec<DocTables>,
}

impl View for Store {
    type V = Seq<DocTablesV>;

    closed spec fn view(&self) -> Seq<DocTablesV> {
        self.docs@.map_values(|d: DocTables| d@)
    }
}

/// Position of document `id`, or -1.
pub open spec fn doc_index(s: Seq<DocTablesV>, id: Seq<char>) -> int
    decreases s.len(),
{
    if s.len() == 0 {
        -1
    } else if s.last().doc.id == id {
        s.len() - 1
    } else {
        doc_index(s.drop_last(), id)
    }
}

pub proof fn lemma_doc_index(s: Seq<DocTablesV>, id: Seq<char>)
    ensures
        -1 <= doc_index(s, id) < s.len(),
        doc_index(s, id) >= 0 ==> s[doc_index(s, id)].doc.id == id,
        doc_index(s, id) < 0 ==> forall|j: int| 0 <= j < s.len() ==> s[j].doc.id != id,
    decreases s.len(),
{
    if s.len() > 0 {
        lemma_doc_index(s.drop_last(), id);
        if doc_index(s, id) < 0 {
            assert forall|j: int| 0 <= j < s.len() implies s[j].doc.id != id by {
                if j < s.len() - 1 {
                    assert(s.drop_last()[j] == s[j]);
                }
            }
        }
    }
}

/// Replacing the tables a document is found at keeps it found there.
pub proof fn lemma_doc_index_update(s: Seq<DocTablesV>, id: Seq<char>, t: DocTablesV)
    requires
        doc_index(s, id) >= 0,
        t.doc.id == id,
    ensures
        doc_index(s.update(doc_index(s, id), t), id) == doc_index(s, id),
    decreases s.len(),
{
    lemma_doc_index(s, id);
    let i = doc_index(s, id);
    let u = s.update(i, t);
    if i < s.len() - 1 {
        assert(s.last().doc.id != id);
        assert(doc_index(s.drop_last(), id) == i);
        assert(u.last() == s.last());
        assert(u.drop_last() =~= s.drop_last().update(i, t));
        lemma_doc_index_update(s.drop_last(), id, t);
    } else {
        assert(u.last() == t);
    }
}

/// The tables of document `id`, if it is stored.
pub open spec fn doc_tables(s: Seq<DocTablesV>, id: Seq<char>) -> Option<DocTablesV> {
    let i = doc_index(s, id);
    if i < 0 {
        None
    } else {
        Some(s[i])
    }
}

/// The store with the tables of document `id` replaced by `t`.
pub open spec fn with_tables(s: Seq<DocTablesV>, id: Seq<char>, t: DocTablesV) -> Seq<DocTablesV> {
    let i = doc_index(s, id);
    if i < 0 {
        s
    } else {
        s.update(i, t)
    }
}

/// A UTC time written by `DateTime<Utc>::to_rfc3339`: a date, `T`, a time,
/// and the zero offset `+00:00` at the end.
pub open spec fn utc_stamp(s: Seq<char>) -> bool {
    &&& s.len() >= 6
    &&& s.skip(s.len() - 6) == "+00:00"@
    &&& exists|i: int| 0 <= i < s.len() && s[i] == 'T'
}

/// The current clock reading as RFC 3339 text (`chrono::Utc::now().to_rfc3339()`).
/// Which time it is goes unsaid; chrono writes a UTC time with the date and
/// time parted by `T` and the offset as `+00:00` (`use_z` is off).
#[verifier::external_body]
pub fn now() -> (r: String)
    ensures
        utc_stamp(r@),
{
    chrono::Utc::now().to_rfc3339()
}

/// `after` is `before` with the header of document `doc.id` set to `doc`
/// (and its update time stamped), or with new empty tables for it.
pub open spec fn upserted(before: Seq<DocTablesV>, after: Seq<DocTablesV>, doc: DocumentV) -> bool {
    match doc_tables(before, doc.id) {
        Some(t) => after.len() == before.len() && after == with_tables(
            before,
            doc.id,
            DocTablesV { doc: doc, updated_at: after[doc_index(before, doc.id)].updated_at, ..t },
        ),
        None => after.len() == before.len() + 1 && after.drop_last() == before
            && after.last().doc == doc && after.last().nodes.len() == 0
            && after.last().relations.len() == 0 && after.last().revisions.len() == 0
            && after.last().changes.len() == 0 && after.last().operations.len() == 0
            && after.last().snapshots.len() == 0,
    }
}

impl Store {
    /// An empty in-memory store.
    pub fn open_memory() -> (r: Store)
        ensures
            r@ == Seq::<DocTablesV>::empty(),
    {
        let r = Store { docs: Vec::new() };
        assert(r@ =~= Seq::<DocTablesV>::empty());
        r
    }

    fn find_doc(&self, id: &str) -> (r: Option<usize>)
        ensures
            self@.len() == self.docs@.len(),
            match r {
                Some(i) => i as int == doc_index(self@, id@) && i < self.docs@.len() && self@[i as int] == self.docs@[i as int]@,
                None => doc_index(self@, id@) < 0,
            },
    {
        proof {
            lemma_doc_index(self@, id@);
        }
        let mut i = self.docs.len();
        while i > 0
            invariant
                i <= self.docs@.len(),
                self@.len() == self.docs@.len(),
                forall|j: int| i <= j < self.docs@.len() ==> self@[j].doc.id != id@,
                doc_index(self@, id@) < i,
                doc_index(self@, id@) >= 0 ==> self@[doc_index(self@, id@)].doc.id == id@,
            decreases i,
        {
            i = i - 1;
            assert(self@[i as int] == self.docs@[i as int]@);
            if str_eq(self.docs[i].doc.id.as_str(), id) {
                proof {
                    lemma_doc_index_last(self@, id@, i as int);
                }
                return Some(i);
            }
        }
        None
    }

    /// Take out the tables of document `i`, leaving the others in place.
    fn take_doc(&mut self, i: usize) -> (t: DocTables)
        requires
            i < old(self)@.len(),
        ensures
            t@ == old(self)@[i as int],
            final(self).docs@ == old(self).docs@.remove(i as int),
    {
        self.docs.remove(i)
    }

    fn put_doc(&mut self, i: usize, t: DocTables)
        requires
            i <= old(self).docs@.len(),
        ensures
            final(self).docs@ == old(self).docs@.insert(i as int, t),
    {
        self.docs.insert(i, t);
    }
}

/// The last match is found when scanning from the end.
pub proof fn lemma_doc_index_last(s: Seq<DocTablesV>, id: Seq<char>, i: int)
    requires
        0 <= i < s.len(),
        s[i].doc.id == id,
        forall|j: int| i < j < s.len() ==> s[j].doc.id != id,
    ensures
        doc_index(s, id) == i,
    decreases s.len(),
{
    if s.len() - 1 != i {
        lemma_doc_index_last(s.drop_last(), id, i);
    }
}

// ---------- table-level model ----------

/// Position of the first node row whose id is `id`, or -1.
pub open spec fn node_pos(rows: Seq<NodeRowV>, id: Seq<char>) -> int
    decreases rows.len(),
{
    if rows.len() == 0 {
        -1
    } else if rows[0].node.id == id {
        0
    } else {
        let p = node_pos(rows.drop_first(), id);
        if p < 0 { -1 } else { p + 1 }
    }
}

pub proof fn lemma_node_pos(rows: Seq<NodeRowV>, id: Seq<char>)
    ensures
        -1 <= node_pos(rows, id) < rows.len(),
        node_pos(rows, id) >= 0 ==> rows[node_pos(rows, id)].node.id == id,
        node_pos(rows, id) >= 0 ==> forall|j: int| 0 <= j < node_pos(rows, id) ==> rows[j].node.id != id,
        node_pos(rows, id) < 0 ==> forall|j: int| 0 <= j < rows.len() ==> rows[j].node.id != id,
    decreases rows.len(),
{
    if rows.len() > 0 && rows[0].node.id != id {
        lemma_node_pos(rows.drop_first(), id);
        assert forall|j: int| 1 <= j < rows.len() implies rows[j] == rows.drop_first()[j - 1] by {}
    }
}

/// The node stored under `id`, if any.
pub open spec fn get_node_spec(t: DocTablesV, id: Seq<char>) -> Option<NodeV> {
    let p = node_pos(t.nodes, id);
    if p < 0 { None } else { Some(t.nodes[p].node) }
}

/// The content hash stored with node `id`, if any.
pub open spec fn get_hash_spec(t: DocTablesV, id: Seq<char>) -> Option<Seq<char>> {
    let p = node_pos(t.nodes, id);
    if p < 0 { None } else { Some(t.nodes[p].hash) }
}

pub open spec fn has_node(t: DocTablesV, id: Seq<char>) -> bool {
    node_pos(t.nodes, id) >= 0
}

pub open spec fn node_row_of(n: NodeV) -> NodeRowV {
    NodeRowV { node: n, hash: content_hash_of(n.content) }
}

pub open spec fn unique_nodes_msg() -> Seq<char> {
    "UNIQUE constraint failed: nodes.doc_id, nodes.id"@
}

pub open spec fn unique_relations_msg() -> Seq<char> {
    "UNIQUE constraint failed: relations.doc_id, relations.id"@
}

pub open spec fn unique_changes_msg() -> Seq<char> {
    "UNIQUE constraint failed: changes.doc_id, changes.id"@
}

pub open spec fn unique_revisions_msg() -> Seq<char> {
    "UNIQUE constraint failed: revisions.doc_id, revisions.id"@
}

pub open spec fn unique_operations_msg() -> Seq<char> {
    "UNIQUE constraint failed: operations.doc_id, operations.id"@
}

/// Inserting a node: refused when the id is taken, else appended with its hash.
pub open spec fn insert_node_spec(t: DocTablesV, n: NodeV) -> Result<DocTablesV, StoreErrorV> {
    if has_node(t, n.id) {
        Err(StoreErrorV::Constraint(unique_nodes_msg()))
    } else {
        Ok(DocTablesV { nodes: t.nodes.push(node_row_of(n)), ..t })
    }
}

/// Updating a node: every row with its id gets the new value and hash.
pub open spec fn update_node_spec(t: DocTablesV, n: NodeV) -> DocTablesV {
    DocTablesV {
        nodes: t.nodes.map_values(|r: NodeRowV| if r.node.id == n.id { node_row_of(n) } else { r }),
        ..t
    }
}

/// Deleting a node removes every row with its id.
pub open spec fn delete_node_spec(t: DocTablesV, id: Seq<char>) -> DocTablesV {
    DocTablesV { nodes: t.nodes.filter(|r: NodeRowV| r.node.id != id), ..t }
}

pub open spec fn relation_pos(rows: Seq<RelationV>, id: Seq<char>) -> int
    decreases rows.len(),
{
    if rows.len() == 0 {
        -1
    } else if rows[0].id == id {
        0
    } else {
        let p = relation_pos(rows.drop_first(), id);
        if p < 0 { -1 } else { p + 1 }
    }
}

pub proof fn lemma_relation_pos(rows: Seq<RelationV>, id: Seq<char>)
    ensures
        -1 <= relation_pos(rows, id) < rows.len(),
        relation_pos(rows, id) >= 0 ==> rows[relation_pos(rows, id)].id == id,
        relation_pos(rows, id) < 0 ==> forall|j: int| 0 <= j < rows.len() ==> rows[j].id != id,
    decreases rows.len(),
{
    if rows.len() > 0 && rows[0].id != id {
        lemma_relation_pos(rows.drop_first(), id);
        assert forall|j: int| 1 <= j < rows.len() implies rows[j] == rows.drop_first()[j - 1] by {}
    }
}

pub open spec fn has_relation(t: DocTablesV, id: Seq<char>) -> bool {
    relation_pos(t.relations, id) >= 0
}

pub open spec fn insert_relation_spec(t: DocTablesV, r: RelationV) -> Result<DocTablesV, StoreErrorV> {
    if has_relation(t, r.id) {
        Err(StoreErrorV::Constraint(unique_relations_msg()))
    } else {
        Ok(DocTablesV { relations: t.relations.push(r), ..t })
    }
}

pub open spec fn delete_relation_spec(t: DocTablesV, id: Seq<char>) -> DocTablesV {
    DocTablesV { relations: t.relations.filter(|r: RelationV| r.id != id), ..t }
}

pub open spec fn change_exists(t: DocTablesV, id: Seq<char>) -> bool {
    exists|i: int| 0 <= i < t.changes.len() && t.changes[i].id == id
}

pub open spec fn insert_change_spec(t: DocTablesV, c: ChangeV) -> Result<DocTablesV, StoreErrorV> {
    if change_exists(t, c.id) {
        Err(StoreErrorV::Constraint(unique_changes_msg()))
    } else {
        Ok(DocTablesV { changes: t.changes.push(c), ..t })
    }
}

pub fn clone_node_row(r: &NodeRow) -> (c: NodeRow)
    ensures
        c@ == r@,
{
    NodeRow { node: r.node.clone(), content_hash: r.content_hash.clone() }
}

impl DocTables {
    /// The node stored under `id`.
    pub fn get_node(&self, id: &str) -> (r: Option<Node>)
        ensures
            match r {
                Some(n) => get_node_spec(self@, id@) == Some(n@),
                None => get_node_spec(self@, id@) is None,
            },
    {
        match self.find_node(id) {
            Some(i) => Some(self.nodes[i].node.clone()),
            None => None,
        }
    }

    /// The content hash stored with node `id`.
    pub fn get_content_hash(&self, id: &str) -> (r: Option<String>)
        ensures
            opt_str_view(r) == get_hash_spec(self@, id@),
    {
        match self.find_node(id) {
            Some(i) => Some(self.nodes[i].content_hash.clone()),
            None => None,
        }
    }

    pub fn find_node(&self, id: &str) -> (r: Option<usize>)
        ensures
            match r {
                Some(i) => i as int == node_pos(self@.nodes, id@) && i < self.nodes@.len(),
                None => node_pos(self@.nodes, id@) < 0,
            },
    {
        proof {
            lemma_node_pos(self@.nodes, id@);
        }
        let mut i: usize = 0;
        while i < self.nodes.len()
            invariant
                i <= self.nodes@.len(),
                self@.nodes.len() == self.nodes@.len(),
                forall|j: int| 0 <= j < i ==> self@.nodes[j].node.id != id@,
            decreases self.nodes@.len() - i,
        {
            assert(self@.nodes[i as int] == self.nodes@[i as int]@);
            if str_eq(self.nodes[i].node.id.as_str(), id) {
                proof {
                    lemma_node_pos_first(self@.nodes, id@, i as int);
                }
                return Some(i);
            }
            i = i + 1;
        }
        None
    }

    /// Insert a node; refused when its id is taken.
    pub fn insert_node(&mut self, node: &Node) -> (r: Result<(), StoreError>)
        ensures
            match insert_node_spec(old(self)@, node@) {
                Ok(t) => r is Ok && final(self)@ == t,
                Err(e) => r matches Err(e2) && e2@ == e && final(self)@ == old(self)@,
            },
    {
        if self.find_node(node.id.as_str()).is_some() {
            return Err(StoreError::Constraint(owned("UNIQUE constraint failed: nodes.doc_id, nodes.id")));
        }
        let hash = content_hash(node.content.as_str());
        let ghost before = self.nodes@;
        self.nodes.push(NodeRow { node: node.clone(), content_hash: hash });
        assert(self@.nodes =~= old(self)@.nodes.push(node_row_of(node@)));
        Ok(())
    }

    /// Overwrite every row of `node.id`; returns the new content hash.
    pub fn update_node(&mut self, node: &Node) -> (r: String)
        ensures
            final(self)@ == update_node_spec(old(self)@, node@),
            r@ == content_hash_of(node@.content),
    {
        let hash = content_hash(node.content.as_str());
        let mut i: usize = 0;
        let ghost n = node@;
        while i < self.nodes.len()
            invariant
                i <= self.nodes@.len(),
                self.nodes@.len() == old(self).nodes@.len(),
                hash@ == content_hash_of(n.content),
                n == node@,
                forall|j: int| 0 <= j < i ==> #[trigger] self.nodes@[j]@ == (if old(self).nodes@[j]@.node.id == n.id {
                    node_row_of(n)
                } else {
                    old(self).nodes@[j]@
                }),
                forall|j: int| i <= j < self.nodes@.len() ==> #[trigger] self.nodes@[j] == old(self).nodes@[j],
                self.doc == old(self).doc,
                self.created_at == old(self).created_at,
                self.updated_at == old(self).updated_at,
                self.relations == old(self).relations,
                self.revisions == old(self).revisions,
                self.changes == old(self).changes,
                self.operations == old(self).operations,
                self.snapshots == old(self).snapshots,
            decreases self.nodes@.len() - i,
        {
            if str_eq(self.nodes[i].node.id.as_str(), node.id.as_str()) {
                self.nodes.set(i, NodeRow { node: node.clone(), content_hash: hash.clone() });
            }
            i = i + 1;
        }
        assert(self@.nodes =~= update_node_spec(old(self)@, n).nodes);
        hash
    }

    /// Remove every row of node `id`.
    pub fn delete_node(&mut self, id: &str)
        ensures
            final(self)@ == delete_node_spec(old(self)@, id@),
    {
        let mut kept: Vec<NodeRow> = Vec::new();
        let mut i: usize = 0;
        let ghost rows = old(self)@.nodes;
        let ghost pred = |r: NodeRowV| r.node.id != id@;
        while i < self.nodes.len()
            invariant
                i <= self.nodes@.len(),
                self == old(self),
                rows == self@.nodes,
                pred == (|r: NodeRowV| r.node.id != id@),
                kept@.map_values(|r: NodeRow| r@) == rows.take(i as int).filter(pred),
            decreases self.nodes@.len() - i,
        {
            assert(rows.take(i + 1).drop_last() =~= rows.take(i as int));
            assert(rows[i as int] == self.nodes@[i as int]@);
            reveal_with_fuel(Seq::filter, 1);
            if !str_eq(self.nodes[i].node.id.as_str(), id) {
                kept.push(clone_node_row(&self.nodes[i]));
                assert(kept@.map_values(|r: NodeRow| r@) =~= rows.take(i as int).filter(pred).push(rows[i as int]));
            }
            i = i + 1;
        }
        assert(rows.take(rows.len() as int) =~= rows);
        self.nodes = kept;
    }
}

/// The first match is found when scanning from the front.
pub proof fn lemma_node_pos_first(rows: Seq<NodeRowV>, id: Seq<char>, i: int)
    requires
        0 <= i < rows.len(),
        rows[i].node.id == id,
        forall|j: int| 0 <= j < i ==> rows[j].node.id != id,
    ensures
        node_pos(rows, id) == i,
    decreases i,
{
    if i > 0 {
        lemma_node_pos_first(rows.drop_first(), id, i - 1);
    }
}

/// Position of the first element satisfying `f`, or -1.
pub open spec fn first_pos<T>(s: Seq<T>, f: spec_fn(T) -> bool) -> int
    decreases s.len(),
{
    if s.len() == 0 {
        -1
    } else if f(s[0]) {
        0
    } else {
        let p = first_pos(s.drop_first(), f);
        if p < 0 { -1 } else { p + 1 }
    }
}

pub proof fn lemma_first_pos<T>(s: Seq<T>, f: spec_fn(T) -> bool)
    ensures
        -1 <= first_pos(s, f) < s.len(),
        first_pos(s, f) >= 0 ==> f(s[first_pos(s, f)]),
        first_pos(s, f) >= 0 ==> forall|j: int| 0 <= j < first_pos(s, f) ==> !f(#[trigger] s[j]),
        first_pos(s, f) < 0 ==> forall|j: int| 0 <= j < s.len() ==> !f(#[trigger] s[j]),
    decreases s.len(),
{
    if s.len() > 0 && !f(s[0]) {
        lemma_first_pos(s.drop_first(), f);
        assert forall|j: int| 1 <= j < s.len() implies s[j] == s.drop_first()[j - 1] by {}
    }
}

pub proof fn lemma_first_pos_at<T>(s: Seq<T>, f: spec_fn(T) -> bool, i: int)
    requires
        0 <= i < s.len(),
        f(s[i]),
        forall|j: int| 0 <= j < i ==> !f(#[trigger] s[j]),
    ensures
        first_pos(s, f) == i,
    decreases i,
{
    if i > 0 {
        assert forall|j: int| 0 <= j < i - 1 implies !f(#[trigger] s.drop_first()[j]) by {
            assert(s.drop_first()[j] == s[j + 1]);
        }
        lemma_first_pos_at(s.drop_first(), f, i - 1);
    }
}

pub open spec fn rev_is(id: Seq<char>) -> spec_fn(RevisionRowV) -> bool {
    |r: RevisionRowV| r.rev.id == id
}

pub open spec fn is_head_row() -> spec_fn(RevisionRowV) -> bool {
    |r: RevisionRowV| r.is_head
}

/// The head revision: the first row flagged as head.
pub open spec fn head_spec(t: DocTablesV) -> Option<Seq<char>> {
    let p = first_pos(t.revisions, is_head_row());
    if p < 0 { None } else { Some(t.revisions[p].rev.id) }
}

/// The stored revision row `id`.
pub open spec fn revision_row_spec(t: DocTablesV, id: Seq<char>) -> Option<RevisionRowV> {
    let p = first_pos(t.revisions, rev_is(id));
    if p < 0 { None } else { Some(t.revisions[p]) }
}

/// The branch label of revision `id` (`None` = main or unknown).
pub open spec fn branch_spec(t: DocTablesV, id: Seq<char>) -> Option<Seq<char>> {
    match revision_row_spec(t, id) {
        Some(r) => r.rev.branch,
        None => None,
    }
}

/// The parents of revision `id`, in order.
pub open spec fn parents_spec(t: DocTablesV, id: Seq<char>) -> Seq<Seq<char>> {
    match revision_row_spec(t, id) {
        Some(r) => r.parents,
        None => Seq::empty(),
    }
}

pub open spec fn parent_list(p: Option<Seq<char>>) -> Seq<Seq<char>> {
    match p {
        Some(x) => seq![x],
        None => Seq::empty(),
    }
}

pub open spec fn insert_revision_spec(t: DocTablesV, rev: RevisionV, is_head: bool) -> Result<DocTablesV, StoreErrorV> {
    if first_pos(t.revisions, rev_is(rev.id)) >= 0 {
        Err(StoreErrorV::Constraint(unique_revisions_msg()))
    } else {
        Ok(DocTablesV {
            revisions: t.revisions.push(RevisionRowV { rev, is_head, parents: parent_list(rev.parent) }),
            ..t
        })
    }
}

/// Exactly the rows of revision `id` become head.
pub open spec fn advance_head_spec(t: DocTablesV, id: Seq<char>) -> DocTablesV {
    DocTablesV {
        revisions: t.revisions.map_values(|r: RevisionRowV| RevisionRowV { is_head: r.rev.id == id, ..r }),
        ..t
    }
}

pub open spec fn set_branch_spec(t: DocTablesV, id: Seq<char>, branch: Seq<char>) -> DocTablesV {
    DocTablesV {
        revisions: t.revisions.map_values(|r: RevisionRowV| if r.rev.id == id {
            RevisionRowV { rev: RevisionV { branch: Some(branch), ..r.rev }, ..r }
        } else {
            r
        }),
        ..t
    }
}

pub open spec fn add_parent_spec(t: DocTablesV, id: Seq<char>, parent: Seq<char>) -> DocTablesV {
    DocTablesV {
        revisions: t.revisions.map_values(|r: RevisionRowV| if r.rev.id == id {
            RevisionRowV { parents: r.parents.push(parent), ..r }
        } else {
            r
        }),
        ..t
    }
}

pub open spec fn is_digit(c: char) -> bool {
    '0' <= c && c <= '9'
}

/// Value of a string of decimal digits.
pub open spec fn digits_value(s: Seq<char>) -> nat
    decreases s.len(),
{
    if s.len() == 0 {
        0
    } else {
        digits_value(s.drop_last()) * 10 + (s.last() as nat - 48) as nat
    }
}

/// The sequence number of a revision id: `R` followed by decimal digits whose
/// value fits below `u64::MAX`; any other id counts as 0.
pub open spec fn rev_number(id: Seq<char>) -> nat {
    if id.len() >= 2 && id[0] == 'R' && (forall|i: int| 1 <= i < id.len() ==> is_digit(#[trigger] id[i]))
        && digits_value(id.drop_first()) < u64::MAX {
        digits_value(id.drop_first())
    } else {
        0
    }
}

pub open spec fn max_rev_number(rows: Seq<RevisionRowV>) -> nat
    decreases rows.len(),
{
    if rows.len() == 0 {
        0
    } else {
        let m = max_rev_number(rows.drop_last());
        let x = rev_number(rows.last().rev.id);
        if x > m { x } else { m }
    }
}

/// The next free revision sequence number: one past the largest in use, 0 for none.
pub open spec fn next_seq_spec(t: DocTablesV) -> nat {
    if t.revisions.len() == 0 { 0 } else { max_rev_number(t.revisions) + 1 }
}

pub open spec fn snapshot_is(rev: Seq<char>) -> spec_fn(SnapshotV) -> bool {
    |s: SnapshotV| s.revision == rev
}

pub open spec fn snapshot_spec(t: DocTablesV, rev: Seq<char>) -> Option<Seq<NodeV>> {
    let p = first_pos(t.snapshots, snapshot_is(rev));
    if p < 0 { None } else { Some(t.snapshots[p].nodes) }
}

/// Saving a snapshot replaces the payload of an existing one (keeping its
/// timestamp) or appends a new one.
pub open spec fn save_snapshot_spec(t: DocTablesV, rev: Seq<char>, nodes: Seq<NodeV>, created_at: Seq<char>) -> DocTablesV {
    let p = first_pos(t.snapshots, snapshot_is(rev));
    if p < 0 {
        DocTablesV { snapshots: t.snapshots.push(SnapshotV { revision: rev, created_at, nodes }), ..t }
    } else {
        DocTablesV { snapshots: t.snapshots.map_values(|s: SnapshotV| if s.revision == rev {
            SnapshotV { nodes, ..s }
        } else {
            s
        }), ..t }
    }
}

/// The timestamp of the most recently added snapshot.
pub open spec fn last_snapshot_time(t: DocTablesV) -> Seq<char> {
    t.snapshots.last().created_at
}

pub open spec fn op_exists(t: DocTablesV, id: Seq<char>) -> bool {
    exists|i: int| 0 <= i < t.operations.len() && t.operations[i].id == id
}

pub fn clone_rev_ids(v: &Vec<RevisionId>) -> (r: Vec<RevisionId>)
    ensures
        rev_ids_view(r@) == rev_ids_view(v@),
{
    let mut out: Vec<RevisionId> = Vec::new();
    let mut i: usize = 0;
    while i < v.len()
        invariant
            i <= v@.len(),
            rev_ids_view(out@) == rev_ids_view(v@.take(i as int)),
        decreases v@.len() - i,
    {
        let ghost prev = out@;
        out.push(v[i].clone());
        proof {
            lemma_take_push(v@, i as int);
            lemma_map_push(prev, out@.last(), |r: RevisionId| r@);
            lemma_map_push(v@.take(i as int), v@[i as int], |r: RevisionId| r@);
        }
        i = i + 1;
    }
    assert(v@.take(v@.len() as int) =~= v@);
    out
}

pub fn clone_revision_row(r: &RevisionRow) -> (c: RevisionRow)
    ensures
        c@ == r@,
{
    RevisionRow { revision: r.revision.clone(), is_head: r.is_head, parents: clone_rev_ids(&r.parents) }
}

pub fn opt_string_from(s: &str) -> (r: Option<String>)
    ensures
        opt_str_view(r) == Some(s@),
{
    Some(owned(s))
}

impl DocTables {
    pub fn find_revision(&self, id: &str) -> (r: Option<usize>)
        ensures
            match r {
                Some(i) => i as int == first_pos(self@.revisions, rev_is(id@)) && i < self.revisions@.len(),
                None => first_pos(self@.revisions, rev_is(id@)) < 0,
            },
    {
        proof {
            lemma_first_pos(self@.revisions, rev_is(id@));
        }
        let mut i: usize = 0;
        while i < self.revisions.len()
            invariant
                i <= self.revisions@.len(),
                self@.revisions.len() == self.revisions@.len(),
                forall|j: int| 0 <= j < i ==> !rev_is(id@)(#[trigger] self@.revisions[j]),
            decreases self.revisions@.len() - i,
        {
            assert(self@.revisions[i as int] == self.revisions@[i as int]@);
            if str_eq(self.revisions[i].revision.id.as_str(), id) {
                proof {
                    lemma_first_pos_at(self@.revisions, rev_is(id@), i as int);
                }
                return Some(i);
            }
            i = i + 1;
        }
        None
    }

    /// The head revision id.
    pub fn head_revision(&self) -> (r: Option<String>)
        ensures
            opt_str_view(r) == head_spec(self@),
    {
        proof {
            lemma_first_pos(self@.revisions, is_head_row());
        }
        let mut i: usize = 0;
        while i < self.revisions.len()
            invariant
                i <= self.revisions@.len(),
                self@.revisions.len() == self.revisions@.len(),
                forall|j: int| 0 <= j < i ==> !is_head_row()(#[trigger] self@.revisions[j]),
            decreases self.revisions@.len() - i,
        {
            assert(self@.revisions[i as int] == self.revisions@[i as int]@);
            if self.revisions[i].is_head {
                proof {
                    lemma_first_pos_at(self@.revisions, is_head_row(), i as int);
                }
                return Some(owned(self.revisions[i].revision.id.as_str()));
            }
            i = i + 1;
        }
        None
    }

    /// The stored revision `id`.
    pub fn get_revision(&self, id: &str) -> (r: Option<Revision>)
        ensures
            match r {
                Some(rev) => revision_row_spec(self@, id@) matches Some(row) && row.rev == rev@,
                None => revision_row_spec(self@, id@) is None,
            },
    {
        match self.find_revision(id) {
            Some(i) => {
                assert(self@.revisions[i as int] == self.revisions@[i as int]@);
                Some(self.revisions[i].revision.clone())
            },
            None => None,
        }
    }

    /// The branch label of revision `id`.
    pub fn get_branch(&self, id: &str) -> (r: Option<String>)
        ensures
            opt_str_view(r) == branch_spec(self@, id@),
    {
        match self.find_revision(id) {
            Some(i) => {
                assert(self@.revisions[i as int] == self.revisions@[i as int]@);
                clone_opt_string(&self.revisions[i].revision.branch)
            },
            None => None,
        }
    }

    /// The parents of revision `id`, in order.
    pub fn list_parents(&self, id: &str) -> (r: Vec<String>)
        ensures
            strs_view(r@) == parents_spec(self@, id@),
    {
        let mut out: Vec<String> = Vec::new();
        match self.find_revision(id) {
            Some(i) => {
                assert(self@.revisions[i as int] == self.revisions@[i as int]@);
                let ps = &self.revisions[i].parents;
                let mut k: usize = 0;
                while k < ps.len()
                    invariant
                        k <= ps@.len(),
                        strs_view(out@) == rev_ids_view(ps@.take(k as int)),
                    decreases ps@.len() - k,
                {
                    let ghost prev = out@;
                    out.push(owned(ps[k].as_str()));
                    proof {
                        lemma_take_push(ps@, k as int);
                        lemma_map_push(ps@.take(k as int), ps@[k as int], |r: RevisionId| r@);
                        lemma_map_push(prev, out@.last(), |s: String| s@);
                    }
                    k = k + 1;
                }
                assert(ps@.take(ps@.len() as int) =~= ps@);
            },
            None => {
                assert(strs_view(out@) =~= Seq::<Seq<char>>::empty());
            },
        }
        out
    }

    /// Add a revision row; refused when the id is taken.
    pub fn insert_revision(&mut self, rev: &Revision, is_head: bool) -> (r: Result<(), StoreError>)
        ensures
            match insert_revision_spec(old(self)@, rev@, is_head) {
                Ok(t) => r is Ok && final(self)@ == t,
                Err(e) => r matches Err(e2) && e2@ == e && final(self)@ == old(self)@,
            },
    {
        if self.find_revision(rev.id.as_str()).is_some() {
            return Err(StoreError::Constraint(owned("UNIQUE constraint failed: revisions.doc_id, revisions.id")));
        }
        let mut parents: Vec<RevisionId> = Vec::new();
        match &rev.parent {
            Some(p) => {
                parents.push(p.clone());
            },
            None => {},
        }
        assert(rev_ids_view(parents@) =~= parent_list(rev@.parent));
        self.revisions.push(RevisionRow { revision: rev.clone(), is_head, parents });
        assert(self@.revisions =~= old(self)@.revisions.push(
            RevisionRowV { rev: rev@, is_head, parents: parent_list(rev@.parent) },
        ));
        Ok(())
    }

    /// Make revision `id` the only head.
    pub fn advance_head(&mut self, id: &str)
        ensures
            final(self)@ == advance_head_spec(old(self)@, id@),
    {
        let mut i: usize = 0;
        while i < self.revisions.len()
            invariant
                i <= self.revisions@.len(),
                self.revisions@.len() == old(self).revisions@.len(),
                forall|j: int| 0 <= j < i ==> #[trigger] self.revisions@[j]@ == (RevisionRowV {
                    is_head: old(self).revisions@[j]@.rev.id == id@,
                    ..old(self).revisions@[j]@
                }),
                forall|j: int| i <= j < self.revisions@.len() ==> #[trigger] self.revisions@[j] == old(self).revisions@[j],
                self.doc == old(self).doc,
                self.created_at == old(self).created_at,
                self.updated_at == old(self).updated_at,
                self.relations == old(self).relations,
                self.nodes == old(self).nodes,
                self.changes == old(self).changes,
                self.operations == old(self).operations,
                self.snapshots == old(self).snapshots,
            decreases self.revisions@.len() - i,
        {
            let mut row = clone_revision_row(&self.revisions[i]);
            row.is_head = str_eq(row.revision.id.as_str(), id);
            self.revisions.set(i, row);
            i = i + 1;
        }
        assert(self@.revisions =~= advance_head_spec(old(self)@, id@).revisions);
    }

    /// Label revision `id` with `branch`.
    pub fn set_branch(&mut self, id: &str, branch: &str)
        ensures
            final(self)@ == set_branch_spec(old(self)@, id@, branch@),
    {
        let mut i: usize = 0;
        while i < self.revisions.len()
            invariant
                i <= self.revisions@.len(),
                self.revisions@.len() == old(self).revisions@.len(),
                forall|j: int| 0 <= j < i ==> #[trigger] self.revisions@[j]@ == (if old(self).revisions@[j]@.rev.id == id@ {
                    RevisionRowV { rev: RevisionV { branch: Some(branch@), ..old(self).revisions@[j]@.rev }, ..old(self).revisions@[j]@ }
                } else {
                    old(self).revisions@[j]@
                }),
                forall|j: int| i <= j < self.revisions@.len() ==> #[trigger] self.revisions@[j] == old(self).revisions@[j],
                self.doc == old(self).doc,
                self.created_at == old(self).created_at,
                self.updated_at == old(self).updated_at,
                self.relations == old(self).relations,
                self.nodes == old(self).nodes,
                self.changes == old(self).changes,
                self.operations == old(self).operations,
                self.snapshots == old(self).snapshots,
            decreases self.revisions@.len() - i,
        {
            if str_eq(self.revisions[i].revision.id.as_str(), id) {
                let mut row = clone_revision_row(&self.revisions[i]);
                row.revision.branch = opt_string_from(branch);
                self.revisions.set(i, row);
            }
            i = i + 1;
        }
        assert(self@.revisions =~= set_branch_spec(old(self)@, id@, branch@).revisions);
    }

    /// Append `parent` to the parents of revision `id`.
    pub fn add_parent(&mut self, id: &str, parent: &str)
        ensures
            final(self)@ == add_parent_spec(old(self)@, id@, parent@),
    {
        let mut i: usize = 0;
        while i < self.revisions.len()
            invariant
                i <= self.revisions@.len(),
                self.revisions@.len() == old(self).revisions@.len(),
                forall|j: int| 0 <= j < i ==> #[trigger] self.revisions@[j]@ == (if old(self).revisions@[j]@.rev.id == id@ {
                    RevisionRowV { parents: old(self).revisions@[j]@.parents.push(parent@), ..old(self).revisions@[j]@ }
                } else {
                    old(self).revisions@[j]@
                }),
                forall|j: int| i <= j < self.revisions@.len() ==> #[trigger] self.revisions@[j] == old(self).revisions@[j],
                self.doc == old(self).doc,
                self.created_at == old(self).created_at,
                self.updated_at == old(self).updated_at,
                self.relations == old(self).relations,
                self.nodes == old(self).nodes,
                self.changes == old(self).changes,
                self.operations == old(self).operations,
                self.snapshots == old(self).snapshots,
            decreases self.revisions@.len() - i,
        {
            if str_eq(self.revisions[i].revision.id.as_str(), id) {
                let mut row = clone_revision_row(&self.revisions[i]);
                row.parents.push(RevisionId::new(parent));
                assert(rev_ids_view(row.parents@) =~= self.revisions@[i as int]@.parents.push(parent@));
                self.revisions.set(i, row);
            }
            i = i + 1;
        }
        assert(self@.revisions =~= add_parent_spec(old(self)@, id@, parent@).revisions);
    }
}

pub fn clone_nodes(v: &Vec<Node>) -> (r: Vec<Node>)
    ensures
        nodes_view(r@) == nodes_view(v@),
{
    let mut out: Vec<Node> = Vec::new();
    let mut i: usize = 0;
    while i < v.len()
        invariant
            i <= v@.len(),
            nodes_view(out@) == nodes_view(v@.take(i as int)),
        decreases v@.len() - i,
    {
        let ghost prev = out@;
        out.push(v[i].clone());
        proof {
            lemma_take_push(v@, i as int);
            lemma_map_push(prev, out@.last(), |n: Node| n@);
            lemma_map_push(v@.take(i as int), v@[i as int], |n: Node| n@);
        }
        i = i + 1;
    }
    assert(v@.take(v@.len() as int) =~= v@);
    out
}

pub open spec fn change_in_revision(rev: Seq<char>) -> spec_fn(ChangeV) -> bool {
    |c: ChangeV| c.revision == rev
}

/// Parse the sequence number of a revision id (see `rev_number`).
pub fn revision_number(id: &str) -> (r: u64)
    ensures
        r as nat == rev_number(id@),
{
    let n = id.unicode_len();
    if n < 2 {
        return 0;
    }
    if id.get_char(0) != 'R' {
        return 0;
    }
    let mut value: u64 = 0;
    let mut i: usize = 1;
    while i < n
        invariant
            1 <= i <= n,
            n == id@.len(),
            id@[0] == 'R',
            forall|k: int| 1 <= k < i ==> is_digit(#[trigger] id@[k]),
            value as nat == digits_value(id@.subrange(1, i as int)),
            value < u64::MAX,
        decreases n - i,
    {
        let c = id.get_char(i);
        if !('0' <= c && c <= '9') {
            return 0;
        }
        let d = ((c as u32) - 48) as u64;
        assert(id@.subrange(1, i + 1).drop_last() =~= id@.subrange(1, i as int));
        assert(digits_value(id@.subrange(1, i + 1)) == value * 10 + d);
        if value > (u64::MAX - 1 - d) / 10 {
            proof {
                assert(value * 10 + d >= u64::MAX) by (nonlinear_arith)
                    requires
                        value > (u64::MAX - 1 - d) / 10,
                        d <= 9,
                ;
                if forall|k: int| 1 <= k < id@.len() ==> is_digit(#[trigger] id@[k]) {
                    assert forall|k: int| 0 <= k < id@.drop_first().len() implies is_digit(#[trigger] id@.drop_first()[k]) by {
                        assert(id@.drop_first()[k] == id@[k + 1]);
                    }
                    assert(id@.drop_first().take(i as int) =~= id@.subrange(1, i + 1));
                    lemma_digits_prefix_bound(id@.drop_first(), i as int);
                }
            }
            return 0;
        }
        assert(value * 10 + d < u64::MAX) by (nonlinear_arith)
            requires
                value <= (u64::MAX - 1 - d) / 10,
                d <= 9,
        ;
        value = value * 10 + d;
        i = i + 1;
    }
    assert(id@.subrange(1, n as int) =~= id@.drop_first());
    value
}

/// A longer digit string is worth at least as much as its prefix.
pub proof fn lemma_digits_prefix_bound(s: Seq<char>, k: int)
    requires
        0 <= k <= s.len(),
        forall|i: int| 0 <= i < s.len() ==> is_digit(#[trigger] s[i]),
    ensures
        digits_value(s) >= digits_value(s.take(k)),
    decreases s.len(),
{
    if k < s.len() {
        assert(s.drop_last().take(k) =~= s.take(k));
        lemma_digits_prefix_bound(s.drop_last(), k);
    } else {
        assert(s.take(k) =~= s);
    }
}

impl DocTables {
    /// One past the largest revision sequence number in use (0 when none).
    pub fn max_revision_seq(&self) -> (r: u64)
        ensures
            r as nat == next_seq_spec(self@),
    {
        if self.revisions.len() == 0 {
            return 0;
        }
        let mut m: u64 = 0;
        let mut i: usize = 0;
        while i < self.revisions.len()
            invariant
                i <= self.revisions@.len(),
                self@.revisions.len() == self.revisions@.len(),
                m as nat == max_rev_number(self@.revisions.take(i as int)),
                m < u64::MAX,
            decreases self.revisions@.len() - i,
        {
            assert(self@.revisions.take(i + 1).drop_last() =~= self@.revisions.take(i as int));
            assert(self@.revisions[i as int] == self.revisions@[i as int]@);
            let x = revision_number(self.revisions[i].revision.id.as_str());
            if x > m {
                m = x;
            }
            i = i + 1;
        }
        assert(self@.revisions.take(self@.revisions.len() as int) =~= self@.revisions);
        m + 1
    }

    /// Add a relation; refused when its id is taken.
    pub fn insert_relation(&mut self, rel: &Relation) -> (r: Result<(), StoreError>)
        ensures
            match insert_relation_spec(old(self)@, rel@) {
                Ok(t) => r is Ok && final(self)@ == t,
                Err(e) => r matches Err(e2) && e2@ == e && final(self)@ == old(self)@,
            },
    {
        if self.find_relation(rel.id.as_str()).is_some() {
            return Err(StoreError::Constraint(owned("UNIQUE constraint failed: relations.doc_id, relations.id")));
        }
        self.relations.push(rel.clone());
        assert(self@.relations =~= old(self)@.relations.push(rel@));
        Ok(())
    }

    pub fn find_relation(&self, id: &str) -> (r: Option<usize>)
        ensures
            match r {
                Some(i) => i as int == relation_pos(self@.relations, id@) && i < self.relations@.len(),
                None => relation_pos(self@.relations, id@) < 0,
            },
    {
        proof {
            lemma_relation_pos(self@.relations, id@);
        }
        let mut i: usize = 0;
        while i < self.relations.len()
            invariant
                i <= self.relations@.len(),
                self@.relations.len() == self.relations@.len(),
                forall|j: int| 0 <= j < i ==> self@.relations[j].id != id@,
            decreases self.relations@.len() - i,
        {
            assert(self@.relations[i as int] == self.relations@[i as int]@);
            if str_eq(self.relations[i].id.as_str(), id) {
                proof {
                    lemma_relation_pos_first(self@.relations, id@, i as int);
                }
                return Some(i);
            }
            i = i + 1;
        }
        None
    }

    /// Remove every relation with id `id`.
    pub fn delete_relation(&mut self, id: &str)
        ensures
            final(self)@ == delete_relation_spec(old(self)@, id@),
    {
        let mut kept: Vec<Relation> = Vec::new();
        let mut i: usize = 0;
        let ghost rows = old(self)@.relations;
        let ghost pred = |r: RelationV| r.id != id@;
        while i < self.relations.len()
            invariant
                i <= self.relations@.len(),
                self == old(self),
                rows == self@.relations,
                pred == (|r: RelationV| r.id != id@),
                kept@.map_values(|r: Relation| r@) == rows.take(i as int).filter(pred),
            decreases self.relations@.len() - i,
        {
            assert(rows.take(i + 1).drop_last() =~= rows.take(i as int));
            assert(rows[i as int] == self.relations@[i as int]@);
            reveal_with_fuel(Seq::filter, 1);
            if !str_eq(self.relations[i].id.as_str(), id) {
                kept.push(self.relations[i].clone());
                assert(kept@.map_values(|r: Relation| r@) =~= rows.take(i as int).filter(pred).push(rows[i as int]));
            }
            i = i + 1;
        }
        assert(rows.take(rows.len() as int) =~= rows);
        self.relations = kept;
    }

    /// Every relation, in insertion order.
    pub fn list_relations(&self) -> (r: Vec<Relation>)
        ensures
            r@.map_values(|x: Relation| x@) == self@.relations,
    {
        let mut out: Vec<Relation> = Vec::new();
        let mut i: usize = 0;
        while i < self.relations.len()
            invariant
                i <= self.relations@.len(),
                out@.map_values(|x: Relation| x@) == self@.relations.take(i as int),
            decreases self.relations@.len() - i,
        {
            let ghost prev = out@;
            out.push(self.relations[i].clone());
            proof {
                lemma_map_push(prev, out@.last(), |x: Relation| x@);
                assert(self@.relations.take(i + 1) =~= self@.relations.take(i as int).push(self@.relations[i as int]));
            }
            i = i + 1;
        }
        assert(self@.relations.take(self@.relations.len() as int) =~= self@.relations);
        out
    }

    /// Record a change; refused when its id is taken.
    pub fn insert_change(&mut self, ch: Change) -> (r: Result<(), StoreError>)
        ensures
            match insert_change_spec(old(self)@, ch@) {
                Ok(t) => r is Ok && final(self)@ == t,
                Err(e) => r matches Err(e2) && e2@ == e && final(self)@ == old(self)@,
            },
    {
        let mut i: usize = 0;
        while i < self.changes.len()
            invariant
                i <= self.changes@.len(),
                self@.changes.len() == self.changes@.len(),
                forall|j: int| 0 <= j < i ==> self@.changes[j].id != ch@.id,
            decreases self.changes@.len() - i,
        {
            assert(self@.changes[i as int] == self.changes@[i as int]@);
            if self.changes[i].id == ch.id {
                return Err(StoreError::Constraint(owned("UNIQUE constraint failed: changes.doc_id, changes.id")));
            }
            i = i + 1;
        }
        self.changes.push(ch);
        assert(self@.changes =~= old(self)@.changes.push(ch@));
        Ok(())
    }

    /// The changes recorded for revision `rev`, in insertion order.
    pub fn list_changes_for_revision(&self, rev: &str) -> (r: Vec<Change>)
        ensures
            r@.map_values(|c: Change| c@) == self@.changes.filter(change_in_revision(rev@)),
    {
        let mut out: Vec<Change> = Vec::new();
        let mut i: usize = 0;
        let ghost rows = self@.changes;
        while i < self.changes.len()
            invariant
                i <= self.changes@.len(),
                rows == self@.changes,
                out@.map_values(|c: Change| c@) == rows.take(i as int).filter(change_in_revision(rev@)),
            decreases self.changes@.len() - i,
        {
            assert(rows.take(i + 1).drop_last() =~= rows.take(i as int));
            assert(rows[i as int] == self.changes@[i as int]@);
            reveal_with_fuel(Seq::filter, 1);
            if str_eq(self.changes[i].revision.as_str(), rev) {
                let ghost prev = out@;
                out.push(self.changes[i].clone());
                proof {
                    lemma_map_push(prev, out@.last(), |c: Change| c@);
                }
            }
            i = i + 1;
        }
        assert(rows.take(rows.len() as int) =~= rows);
        out
    }

    /// Whether an operation with id `id` was recorded.
    pub fn has_operation(&self, id: &str) -> (r: bool)
        ensures
            r == op_exists(self@, id@),
    {
        let mut i: usize = 0;
        while i < self.operations.len()
            invariant
                i <= self.operations@.len(),
                self@.operations.len() == self.operations@.len(),
                forall|j: int| 0 <= j < i ==> self@.operations[j].id != id@,
            decreases self.operations@.len() - i,
        {
            assert(self@.operations[i as int] == self.operations@[i as int]@);
            if str_eq(self.operations[i].id.as_str(), id) {
                return true;
            }
            i = i + 1;
        }
        false
    }

    /// Record an applied operation; refused when its id is taken.
    pub fn insert_operation(&mut self, rec: OperationRecord) -> (r: Result<(), StoreError>)
        ensures
            if op_exists(old(self)@, rec@.id) {
                r matches Err(e) && e@ == StoreErrorV::Constraint(unique_operations_msg()) && final(self)@ == old(self)@
            } else {
                r is Ok && final(self)@ == (DocTablesV { operations: old(self)@.operations.push(rec@), ..old(self)@ })
            },
    {
        let mut i: usize = 0;
        while i < self.operations.len()
            invariant
                i <= self.operations@.len(),
                self@.operations.len() == self.operations@.len(),
                forall|j: int| 0 <= j < i ==> self@.operations[j].id != rec@.id,
            decreases self.operations@.len() - i,
        {
            assert(self@.operations[i as int] == self.operations@[i as int]@);
            if str_eq(self.operations[i].id.as_str(), rec.id.as_str()) {
                return Err(StoreError::Constraint(owned("UNIQUE constraint failed: operations.doc_id, operations.id")));
            }
            i = i + 1;
        }
        self.operations.push(rec);
        assert(self@.operations =~= old(self)@.operations.push(rec@));
        Ok(())
    }

    pub fn find_snapshot(&self, rev: &str) -> (r: Option<usize>)
        ensures
            match r {
                Some(i) => i as int == first_pos(self@.snapshots, snapshot_is(rev@)) && i < self.snapshots@.len(),
                None => first_pos(self@.snapshots, snapshot_is(rev@)) < 0,
            },
    {
        proof {
            lemma_first_pos(self@.snapshots, snapshot_is(rev@));
        }
        let mut i: usize = 0;
        while i < self.snapshots.len()
            invariant
                i <= self.snapshots@.len(),
                self@.snapshots.len() == self.snapshots@.len(),
                forall|j: int| 0 <= j < i ==> !snapshot_is(rev@)(#[trigger] self@.snapshots[j]),
            decreases self.snapshots@.len() - i,
        {
            assert(self@.snapshots[i as int] == self.snapshots@[i as int]@);
            if str_eq(self.snapshots[i].revision.as_str(), rev) {
                proof {
                    lemma_first_pos_at(self@.snapshots, snapshot_is(rev@), i as int);
                }
                return Some(i);
            }
            i = i + 1;
        }
        None
    }

    /// The node list saved for revision `rev`.
    pub fn load_snapshot(&self, rev: &str) -> (r: Option<Vec<Node>>)
        ensures
            match r {
                Some(v) => snapshot_spec(self@, rev@) == Some(nodes_view(v@)),
                None => snapshot_spec(self@, rev@) is None,
            },
    {
        match self.find_snapshot(rev) {
            Some(i) => {
                assert(self@.snapshots[i as int] == self.snapshots@[i as int]@);
                Some(clone_nodes(&self.snapshots[i].nodes))
            },
            None => None,
        }
    }

    /// Save (or replace) the node list of revision `rev`.
    pub fn save_snapshot_at(&mut self, rev: &str, nodes: &Vec<Node>, created_at: String)
        ensures
            final(self)@ == save_snapshot_spec(old(self)@, rev@, nodes_view(nodes@), created_at@),
    {
        match self.find_snapshot(rev) {
            None => {
                self.snapshots.push(Snapshot { revision: owned(rev), created_at, nodes: clone_nodes(nodes) });
                assert(self@.snapshots =~= old(self)@.snapshots.push(
                    SnapshotV { revision: rev@, created_at: created_at@, nodes: nodes_view(nodes@) },
                ));
            },
            Some(_) => {
                let mut i: usize = 0;
                while i < self.snapshots.len()
                    invariant
                        i <= self.snapshots@.len(),
                        self.snapshots@.len() == old(self).snapshots@.len(),
                        forall|j: int| 0 <= j < i ==> #[trigger] self.snapshots@[j]@ == (if old(self).snapshots@[j]@.revision == rev@ {
                            SnapshotV { nodes: nodes_view(nodes@), ..old(self).snapshots@[j]@ }
                        } else {
                            old(self).snapshots@[j]@
                        }),
                        forall|j: int| i <= j < self.snapshots@.len() ==> #[trigger] self.snapshots@[j] == old(self).snapshots@[j],
                        self.doc == old(self).doc,
                        self.created_at == old(self).created_at,
                        self.updated_at == old(self).updated_at,
                        self.relations == old(self).relations,
                        self.nodes == old(self).nodes,
                        self.changes == old(self).changes,
                        self.operations == old(self).operations,
                        self.revisions == old(self).revisions,
                    decreases self.snapshots@.len() - i,
                {
                    if str_eq(self.snapshots[i].revision.as_str(), rev) {
                        let s = Snapshot {
                            revision: self.snapshots[i].revision.clone(),
                            created_at: self.snapshots[i].created_at.clone(),
                            nodes: clone_nodes(nodes),
                        };
                        self.snapshots.set(i, s);
                    }
                    i = i + 1;
                }
                assert(self@.snapshots =~= save_snapshot_spec(old(self)@, rev@, nodes_view(nodes@), created_at@).snapshots);
            },
        }
    }
}

pub proof fn lemma_relation_pos_first(rows: Seq<RelationV>, id: Seq<char>, i: int)
    requires
        0 <= i < rows.len(),
        rows[i].id == id,
        forall|j: int| 0 <= j < i ==> rows[j].id != id,
    ensures
        relation_pos(rows, id) == i,
    decreases i,
{
    if i > 0 {
        lemma_relation_pos_first(rows.drop_first(), id, i - 1);
    }
}

pub open spec fn live_nodes_spec(t: DocTablesV) -> Seq<NodeV> {
    t.nodes.map_values(|r: NodeRowV| r.node)
}

/// All nodes ordered by (parent, position, id), parentless nodes first.
pub open spec fn list_nodes_spec(t: DocTablesV) -> Seq<NodeV> {
    sort_nodes(true, live_nodes_spec(t))
}

pub open spec fn fk_msg() -> Seq<char> {
    "FOREIGN KEY constraint failed"@
}

impl DocTables {
    /// The stored nodes in row order.
    pub fn live_nodes(&self) -> (r: Vec<Node>)
        ensures
            nodes_view(r@) == live_nodes_spec(self@),
    {
        let mut out: Vec<Node> = Vec::new();
        let mut i: usize = 0;
        while i < self.nodes.len()
            invariant
                i <= self.nodes@.len(),
                nodes_view(out@) == live_nodes_spec(self@).take(i as int),
            decreases self.nodes@.len() - i,
        {
            let ghost prev = out@;
            out.push(self.nodes[i].node.clone());
            proof {
                lemma_map_push(prev, out@.last(), |n: Node| n@);
                assert(live_nodes_spec(self@).take(i + 1) =~= live_nodes_spec(self@).take(i as int).push(
                    self.nodes@[i as int].node@,
                ));
            }
            i = i + 1;
        }
        assert(live_nodes_spec(self@).take(self.nodes@.len() as int) =~= live_nodes_spec(self@));
        out
    }

    /// All nodes ordered by (parent, position, id).
    pub fn list_nodes(&self) -> (r: Vec<Node>)
        ensures
            nodes_view(r@) == list_nodes_spec(self@),
    {
        sorted_nodes(true, self.live_nodes())
    }
}

pub proof fn lemma_remove_insert<A>(s: Seq<A>, i: int, x: A)
    requires
        0 <= i < s.len(),
    ensures
        s.remove(i).insert(i, x) == s.update(i, x),
{
    assert(s.remove(i).insert(i, x) =~= s.update(i, x));
}

impl Store {
    /// Swap the tables of the document at `i` for `t`.
    fn replace_doc(&mut self, i: usize, t: DocTables) -> (old_t: DocTables)
        requires
            i < old(self)@.len(),
        ensures
            old_t@ == old(self)@[i as int],
            final(self)@ == old(self)@.update(i as int, t@),
    {
        let o = self.docs.remove(i);
        self.docs.insert(i, t);
        proof {
            lemma_remove_insert(old(self).docs@, i as int, t);
            assert(self@ =~= old(self)@.update(i as int, t@));
        }
        o
    }

    /// A copy of the tables of document `doc_id`.
    pub fn tables(&self, doc_id: &str) -> (r: Option<&DocTables>)
        ensures
            match r {
                Some(t) => doc_tables(self@, doc_id@) == Some(t@),
                None => doc_tables(self@, doc_id@) is None,
            },
    {
        match self.find_doc(doc_id) {
            Some(i) => {
                assert(self@[i as int] == self.docs@[i as int]@);
                Some(&self.docs[i])
            },
            None => None,
        }
    }

    /// Take the tables of `doc_id` out, leaving empty-document tables behind.
    pub fn checkout_tables(&mut self, doc_id: &str) -> (r: Option<(usize, DocTables)>)
        ensures
            match r {
                Some((i, t)) => i as int == doc_index(old(self)@, doc_id@) && i < old(self)@.len()
                    && t@ == old(self)@[i as int] && final(self)@.len() == old(self)@.len()
                    && forall|x: DocTablesV| #[trigger] final(self)@.update(i as int, x) == old(self)@.update(i as int, x),
                None => doc_index(old(self)@, doc_id@) < 0 && final(self)@ == old(self)@,
            },
    {
        match self.find_doc(doc_id) {
            Some(i) => {
                let placeholder = DocTables::empty_like(&self.docs[i]);
                let t = self.replace_doc(i, placeholder);
                assert forall|x: DocTablesV| #[trigger] self@.update(i as int, x) == old(self)@.update(i as int, x) by {
                    assert(self@.update(i as int, x) =~= old(self)@.update(i as int, x));
                }
                Some((i, t))
            },
            None => None,
        }
    }

    /// The ids of the stored documents, in creation order.
    pub fn document_ids(&self) -> (r: Vec<String>)
        ensures
            strs_view(r@) == self@.map_values(|t: DocTablesV| t.doc.id),
    {
        let mut out: Vec<String> = Vec::new();
        let mut i: usize = 0;
        while i < self.docs.len()
            invariant
                i <= self.docs@.len(),
                strs_view(out@) == self@.take(i as int).map_values(|t: DocTablesV| t.doc.id),
            decreases self.docs@.len() - i,
        {
            let ghost prev = out@;
            let id = owned(self.docs[i].doc.id.as_str());
            out.push(id);
            proof {
                assert(self@[i as int] == self.docs@[i as int]@);
                assert(strs_view(out@) =~= strs_view(prev).push(self@[i as int].doc.id));
                assert(self@.take(i + 1) =~= self@.take(i as int).push(self@[i as int]));
                assert(strs_view(out@) =~= self@.take(i + 1).map_values(|t: DocTablesV| t.doc.id));
            }
            i = i + 1;
        }
        assert(self@.take(self.docs@.len() as int) =~= self@);
        out
    }

    /// Add the tables of a document the store does not hold yet.
    pub fn add_tables(&mut self, t: DocTables)
        requires
            doc_index(old(self)@, t@.doc.id) < 0,
        ensures
            final(self)@ == old(self)@.push(t@),
    {
        self.docs.push(t);
        assert(self@ =~= old(self)@.push(t@));
    }

    /// Put tables back at position `i`.
    pub fn restore_tables(&mut self, i: usize, t: DocTables)
        requires
            i < old(self)@.len(),
        ensures
            final(self)@ == old(self)@.update(i as int, t@),
    {
        let _ = self.replace_doc(i, t);
    }

    /// Create or update the document header (`updated_at` is stamped now).
    pub fn upsert_document(&mut self, doc: &Document)
        ensures
            upserted(old(self)@, final(self)@, doc@),
    {
        let ts = now();
        match self.find_doc(doc.id.as_str()) {
            Some(i) => {
                let placeholder = DocTables::empty_like(&self.docs[i]);
                let mut t = self.replace_doc(i, placeholder);
                let ghost t0 = t@;
                t.doc = doc.clone();
                t.updated_at = ts;
                let ghost ts_v = t.updated_at@;
                let ghost mid = self@;
                self.restore_tables(i, t);
                proof {
                    assert(mid.update(i as int, t@) =~= old(self)@.update(i as int, t@));
                    assert(t@ == DocTablesV { doc: doc@, updated_at: ts_v, ..t0 });
                    assert(doc_tables(old(self)@, doc.id@) == Some(t0));
                    assert(self@ == with_tables(old(self)@, doc.id@, DocTablesV { doc: doc@, updated_at: ts_v, ..t0 }));
                    assert(self@[doc_index(old(self)@, doc@.id)].updated_at == ts_v);
                    assert(upserted(old(self)@, self@, doc@));
                }
            },
            None => {
                let t = DocTables {
                    doc: doc.clone(),
                    created_at: ts.clone(),
                    updated_at: ts,
                    nodes: Vec::new(),
                    relations: Vec::new(),
                    revisions: Vec::new(),
                    changes: Vec::new(),
                    operations: Vec::new(),
                    snapshots: Vec::new(),
                };
                let ghost tv = t@;
                self.docs.push(t);
                assert(self@ =~= old(self)@.push(self@.last()));
                assert(self@.last() == tv);
                assert(tv.nodes.len() == 0 && tv.relations.len() == 0 && tv.revisions.len() == 0);
                assert(tv.changes.len() == 0 && tv.operations.len() == 0 && tv.snapshots.len() == 0);
                assert(doc_tables(old(self)@, doc@.id) is None);
                assert(self@.drop_last() =~= old(self)@);
                assert(upserted(old(self)@, self@, doc@));
            },
        }
    }

    /// The header of document `id`.
    pub fn get_document(&self, id: &str) -> (r: Option<Document>)
        ensures
            match r {
                Some(d) => doc_tables(self@, id@) matches Some(t) && t.doc == d@,
                None => doc_tables(self@, id@) is None,
            },
    {
        match self.tables(id) {
            Some(t) => Some(t.doc.clone()),
            None => None,
        }
    }

    /// Insert a node into document `doc_id`.
    pub fn insert_node(&mut self, doc_id: &str, node: &Node) -> (r: Result<(), StoreError>)
        ensures
            match doc_tables(old(self)@, doc_id@) {
                None => r matches Err(e) && e@ == StoreErrorV::Constraint(fk_msg()) && final(self)@ == old(self)@,
                Some(t) => match insert_node_spec(t, node@) {
                    Ok(t2) => r is Ok && final(self)@ == with_tables(old(self)@, doc_id@, t2),
                    Err(e) => r matches Err(e2) && e2@ == e && final(self)@ == old(self)@,
                },
            },
    {
        match self.checkout_tables(doc_id) {
            None => Err(StoreError::Constraint(owned("FOREIGN KEY constraint failed"))),
            Some((i, t)) => {
                let mut t = t;
                let r = t.insert_node(node);
                self.restore_tables(i, t);
                proof {
                    assert(old(self)@.update(i as int, old(self)@[i as int]) =~= old(self)@);
                }
                r
            },
        }
    }

    /// Overwrite node `node.id` in document `doc_id`; returns the new hash.
    pub fn update_node(&mut self, doc_id: &str, node: &Node) -> (r: String)
        ensures
            r@ == content_hash_of(node@.content),
            match doc_tables(old(self)@, doc_id@) {
                None => final(self)@ == old(self)@,
                Some(t) => final(self)@ == with_tables(old(self)@, doc_id@, update_node_spec(t, node@)),
            },
    {
        match self.checkout_tables(doc_id) {
            None => content_hash(node.content.as_str()),
            Some((i, t)) => {
                let mut t = t;
                let h = t.update_node(node);
                self.restore_tables(i, t);
                h
            },
        }
    }

    /// Delete node `id` from document `doc_id`.
    pub fn delete_node(&mut self, doc_id: &str, id: &NodeId)
        ensures
            match doc_tables(old(self)@, doc_id@) {
                None => final(self)@ == old(self)@,
                Some(t) => final(self)@ == with_tables(old(self)@, doc_id@, delete_node_spec(t, id@)),
            },
    {
        match self.checkout_tables(doc_id) {
            None => {},
            Some((i, t)) => {
                let mut t = t;
                t.delete_node(id.as_str());
                self.restore_tables(i, t);
            },
        }
    }

    /// Node `id` of document `doc_id`.
    pub fn get_node(&self, doc_id: &str, id: &NodeId) -> (r: Option<Node>)
        ensures
            match doc_tables(self@, doc_id@) {
                None => r is None,
                Some(t) => match r {
                    Some(n) => get_node_spec(t, id@) == Some(n@),
                    None => get_node_spec(t, id@) is None,
                },
            },
    {
        match self.tables(doc_id) {
            Some(t) => t.get_node(id.as_str()),
            None => None,
        }
    }

    /// All nodes of document `doc_id` ordered by (parent, position, id).
    pub fn list_nodes(&self, doc_id: &str) -> (r: Vec<Node>)
        ensures
            match doc_tables(self@, doc_id@) {
                None => r@.len() == 0,
                Some(t) => nodes_view(r@) == list_nodes_spec(t),
            },
    {
        match self.tables(doc_id) {
            Some(t) => t.list_nodes(),
            None => Vec::new(),
        }
    }

    /// The stored content hash of node `id`.
    pub fn get_content_hash(&self, doc_id: &str, id: &NodeId) -> (r: Option<String>)
        ensures
            match doc_tables(self@, doc_id@) {
                None => r is None,
                Some(t) => opt_str_view(r) == get_hash_spec(t, id@),
            },
    {
        match self.tables(doc_id) {
            Some(t) => t.get_content_hash(id.as_str()),
            None => None,
        }
    }

    /// Insert a relation into document `doc_id`.
    pub fn insert_relation(&mut self, doc_id: &str, rel: &Relation) -> (r: Result<(), StoreError>)
        ensures
            match doc_tables(old(self)@, doc_id@) {
                None => r matches Err(e) && e@ == StoreErrorV::Constraint(fk_msg()) && final(self)@ == old(self)@,
                Some(t) => match insert_relation_spec(t, rel@) {
                    Ok(t2) => r is Ok && final(self)@ == with_tables(old(self)@, doc_id@, t2),
                    Err(e) => r matches Err(e2) && e2@ == e && final(self)@ == old(self)@,
                },
            },
    {
        match self.checkout_tables(doc_id) {
            None => Err(StoreError::Constraint(owned("FOREIGN KEY constraint failed"))),
            Some((i, t)) => {
                let mut t = t;
                let r = t.insert_relation(rel);
                self.restore_tables(i, t);
                proof {
                    assert(old(self)@.update(i as int, old(self)@[i as int]) =~= old(self)@);
                }
                r
            },
        }
    }

    /// Delete relation `id` from document `doc_id`.
    pub fn delete_relation(&mut self, doc_id: &str, id: &str)
        ensures
            match doc_tables(old(self)@, doc_id@) {
                None => final(self)@ == old(self)@,
                Some(t) => final(self)@ == with_tables(old(self)@, doc_id@, delete_relation_spec(t, id@)),
            },
    {
        match self.checkout_tables(doc_id) {
            None => {},
            Some((i, t)) => {
                let mut t = t;
                t.delete_relation(id);
                self.restore_tables(i, t);
            },
        }
    }

    /// The relations of document `doc_id`, in insertion order.
    pub fn list_relations(&self, doc_id: &str) -> (r: Vec<Relation>)
        ensures
            match doc_tables(self@, doc_id@) {
                None => r@.len() == 0,
                Some(t) => r@.map_values(|x: Relation| x@) == t.relations,
            },
    {
        match self.tables(doc_id) {
            Some(t) => t.list_relations(),
            None => Vec::new(),
        }
    }

    /// Add a revision to document `doc_id`.
    pub fn insert_revision(&mut self, doc_id: &str, rev: &Revision, is_head: bool) -> (r: Result<(), StoreError>)
        ensures
            match doc_tables(old(self)@, doc_id@) {
                None => r matches Err(e) && e@ == StoreErrorV::Constraint(fk_msg()) && final(self)@ == old(self)@,
                Some(t) => match insert_revision_spec(t, rev@, is_head) {
                    Ok(t2) => r is Ok && final(self)@ == with_tables(old(self)@, doc_id@, t2),
                    Err(e) => r matches Err(e2) && e2@ == e && final(self)@ == old(self)@,
                },
            },
    {
        match self.checkout_tables(doc_id) {
            None => Err(StoreError::Constraint(owned("FOREIGN KEY constraint failed"))),
            Some((i, t)) => {
                let mut t = t;
                let r = t.insert_revision(rev, is_head);
                self.restore_tables(i, t);
                proof {
                    assert(old(self)@.update(i as int, old(self)@[i as int]) =~= old(self)@);
                }
                r
            },
        }
    }

    /// Label revision `rev_id` of document `doc_id` with `branch`.
    pub fn set_branch(&mut self, doc_id: &str, rev_id: &str, branch: &str)
        ensures
            match doc_tables(old(self)@, doc_id@) {
                None => final(self)@ == old(self)@,
                Some(t) => final(self)@ == with_tables(old(self)@, doc_id@, set_branch_spec(t, rev_id@, branch@)),
            },
    {
        match self.checkout_tables(doc_id) {
            None => {},
            Some((i, t)) => {
                let mut t = t;
                t.set_branch(rev_id, branch);
                self.restore_tables(i, t);
            },
        }
    }

    /// The branch label of revision `rev_id`.
    pub fn get_branch(&self, doc_id: &str, rev_id: &str) -> (r: Option<String>)
        ensures
            match doc_tables(self@, doc_id@) {
                None => r is None,
                Some(t) => opt_str_view(r) == branch_spec(t, rev_id@),
            },
    {
        match self.tables(doc_id) {
            Some(t) => t.get_branch(rev_id),
            None => None,
        }
    }

    /// The parents of revision `rev_id`, in order.
    pub fn list_parents(&self, doc_id: &str, rev_id: &str) -> (r: Vec<String>)
        ensures
            match doc_tables(self@, doc_id@) {
                None => r@.len() == 0,
                Some(t) => strs_view(r@) == parents_spec(t, rev_id@),
            },
    {
        match self.tables(doc_id) {
            Some(t) => t.list_parents(rev_id),
            None => Vec::new(),
        }
    }

    /// Make `new_head` the only head revision of document `doc_id`.
    pub fn advance_head(&mut self, doc_id: &str, new_head: &str)
        ensures
            match doc_tables(old(self)@, doc_id@) {
                None => final(self)@ == old(self)@,
                Some(t) => final(self)@ == with_tables(old(self)@, doc_id@, advance_head_spec(t, new_head@)),
            },
    {
        match self.checkout_tables(doc_id) {
            None => {},
            Some((i, t)) => {
                let mut t = t;
                t.advance_head(new_head);
                self.restore_tables(i, t);
            },
        }
    }

    /// The head revision of document `doc_id`.
    pub fn head_revision(&self, doc_id: &str) -> (r: Option<String>)
        ensures
            match doc_tables(self@, doc_id@) {
                None => r is None,
                Some(t) => opt_str_view(r) == head_spec(t),
            },
    {
        match self.tables(doc_id) {
            Some(t) => t.head_revision(),
            None => None,
        }
    }

    /// One past the largest revision number of document `doc_id` (0 for none).
    pub fn max_revision_seq(&self, doc_id: &str) -> (r: u64)
        ensures
            match doc_tables(self@, doc_id@) {
                None => r == 0,
                Some(t) => r as nat == next_seq_spec(t),
            },
    {
        match self.tables(doc_id) {
            Some(t) => t.max_revision_seq(),
            None => 0,
        }
    }

    /// Revision `rev_id` of document `doc_id`.
    pub fn get_revision(&self, doc_id: &str, rev_id: &str) -> (r: Option<Revision>)
        ensures
            match doc_tables(self@, doc_id@) {
                None => r is None,
                Some(t) => match r {
                    Some(rev) => revision_row_spec(t, rev_id@) matches Some(row) && row.rev == rev@,
                    None => revision_row_spec(t, rev_id@) is None,
                },
            },
    {
        match self.tables(doc_id) {
            Some(t) => t.get_revision(rev_id),
            None => None,
        }
    }

    /// Record a change for document `doc_id`.
    pub fn insert_change(&mut self, doc_id: &str, ch: Change) -> (r: Result<(), StoreError>)
        ensures
            match doc_tables(old(self)@, doc_id@) {
                None => r matches Err(e) && e@ == StoreErrorV::Constraint(fk_msg()) && final(self)@ == old(self)@,
                Some(t) => match insert_change_spec(t, ch@) {
                    Ok(t2) => r is Ok && final(self)@ == with_tables(old(self)@, doc_id@, t2),
                    Err(e) => r matches Err(e2) && e2@ == e && final(self)@ == old(self)@,
                },
            },
    {
        match self.checkout_tables(doc_id) {
            None => Err(StoreError::Constraint(owned("FOREIGN KEY constraint failed"))),
            Some((i, t)) => {
                let mut t = t;
                let r = t.insert_change(ch);
                self.restore_tables(i, t);
                proof {
                    assert(old(self)@.update(i as int, old(self)@[i as int]) =~= old(self)@);
                }
                r
            },
        }
    }

    /// The changes of revision `rev_id`, in insertion order.
    pub fn list_changes_for_revision(&self, doc_id: &str, rev_id: &str) -> (r: Vec<Change>)
        ensures
            match doc_tables(self@, doc_id@) {
                None => r@.len() == 0,
                Some(t) => r@.map_values(|c: Change| c@) == t.changes.filter(change_in_revision(rev_id@)),
            },
    {
        match self.tables(doc_id) {
            Some(t) => t.list_changes_for_revision(rev_id),
            None => Vec::new(),
        }
    }

    /// Save the node list of revision `rev_id` (stamped now when new).
    pub fn save_snapshot(&mut self, doc_id: &str, rev_id: &str, nodes: &Vec<Node>)
        ensures
            match doc_tables(old(self)@, doc_id@) {
                None => final(self)@ == old(self)@,
                Some(t) => final(self)@ == with_tables(
                    old(self)@,
                    doc_id@,
                    save_snapshot_spec(t, rev_id@, nodes_view(nodes@), last_snapshot_time(final(self)@[doc_index(old(self)@, doc_id@)])),
                ),
            },
    {
        let ts = now();
        let ghost ts_v = ts@;
        match self.checkout_tables(doc_id) {
            None => {},
            Some((i, t)) => {
                let mut t = t;
                let ghost t0 = t@;
                t.save_snapshot_at(rev_id, nodes, ts);
                self.restore_tables(i, t);
                proof {
                    lemma_doc_index(old(self)@, doc_id@);
                    let p = first_pos(t0.snapshots, snapshot_is(rev_id@));
                    if p < 0 {
                        assert(last_snapshot_time(self@[i as int]) == ts_v);
                    }
                }
                assert(self@ == with_tables(old(self)@, doc_id@, save_snapshot_spec(t0, rev_id@, nodes_view(nodes@), last_snapshot_time(self@[i as int]))));
            },
        }
    }

    /// The node list saved for revision `rev_id`.
    pub fn load_snapshot(&self, doc_id: &str, rev_id: &str) -> (r: Option<Vec<Node>>)
        ensures
            match doc_tables(self@, doc_id@) {
                None => r is None,
                Some(t) => match r {
                    Some(v) => snapshot_spec(t, rev_id@) == Some(nodes_view(v@)),
                    None => snapshot_spec(t, rev_id@) is None,
                },
            },
    {
        match self.tables(doc_id) {
            Some(t) => t.load_snapshot(rev_id),
            None => None,
        }
    }
}

impl DocTables {
    /// Empty tables carrying a copy of `t`'s header.
    pub fn empty_like(t: &DocTables) -> (r: DocTables)
        ensures
            r@.doc == t@.doc,
    {
        DocTables {
            doc: t.doc.clone(),
            created_at: t.created_at.clone(),
            updated_at: t.updated_at.clone(),
            nodes: Vec::new(),
            relations: Vec::new(),
            revisions: Vec::new(),
            changes: Vec::new(),
            operations: Vec::new(),
            snapshots: Vec::new(),
        }
    }
}

pub fn clone_opt_patch(p: &Option<Patch>) -> (r: Option<Patch>)
    ensures
        opt_patch_view(r) == opt_patch_view(*p),
{
    match p {
        Some(x) => Some(x.clone()),
        None => None,
    }
}

pub fn clone_operation_record(o: &OperationRecord) -> (r: OperationRecord)
    ensures
        r@ == o@,
{
    OperationRecord {
        id: o.id.clone(),
        op_type: o.op_type,
        target: clone_opt_id(&o.target),
        expected_revision: o.expected_revision.clone(),
        target_revision: clone_opt_rev(&o.target_revision),
        actor: o.actor.clone(),
        patch: clone_opt_patch(&o.patch),
        reason: clone_opt_string(&o.reason),
        created_at: o.created_at.clone(),
    }
}

pub fn clone_snapshot(s: &Snapshot) -> (r: Snapshot)
    ensures
        r@ == s@,
{
    Snapshot { revision: s.revision.clone(), created_at: s.created_at.clone(), nodes: clone_nodes(&s.nodes) }
}

impl DocTables {
    /// A deep copy of every table.
    pub fn clone_tables(&self) -> (r: DocTables)
        ensures
            r@ == self@,
    {
        let mut nodes: Vec<NodeRow> = Vec::new();
        let mut i: usize = 0;
        while i < self.nodes.len()
            invariant
                i <= self.nodes@.len(),
                nodes@.map_values(|x: NodeRow| x@) == self@.nodes.take(i as int),
            decreases self.nodes@.len() - i,
        {
            let ghost prev = nodes@;
            nodes.push(clone_node_row(&self.nodes[i]));
            proof {
                lemma_map_push(prev, nodes@.last(), |x: NodeRow| x@);
                assert(self@.nodes.take(i + 1) =~= self@.nodes.take(i as int).push(self@.nodes[i as int]));
            }
            i = i + 1;
        }
        let mut revisions: Vec<RevisionRow> = Vec::new();
        let mut i: usize = 0;
        while i < self.revisions.len()
            invariant
                i <= self.revisions@.len(),
                revisions@.map_values(|x: RevisionRow| x@) == self@.revisions.take(i as int),
            decreases self.revisions@.len() - i,
        {
            let ghost prev = revisions@;
            revisions.push(clone_revision_row(&self.revisions[i]));
            proof {
                lemma_map_push(prev, revisions@.last(), |x: RevisionRow| x@);
                assert(self@.revisions.take(i + 1) =~= self@.revisions.take(i as int).push(self@.revisions[i as int]));
            }
            i = i + 1;
        }
        let mut changes: Vec<Change> = Vec::new();
        let mut i: usize = 0;
        while i < self.changes.len()
            invariant
                i <= self.changes@.len(),
                changes@.map_values(|x: Change| x@) == self@.changes.take(i as int),
            decreases self.changes@.len() - i,
        {
            let ghost prev = changes@;
            changes.push(self.changes[i].clone());
            proof {
                lemma_map_push(prev, changes@.last(), |x: Change| x@);
                assert(self@.changes.take(i + 1) =~= self@.changes.take(i as int).push(self@.changes[i as int]));
            }
            i = i + 1;
        }
        let mut operations: Vec<OperationRecord> = Vec::new();
        let mut i: usize = 0;
        while i < self.operations.len()
            invariant
                i <= self.operations@.len(),
                operations@.map_values(|x: OperationRecord| x@) == self@.operations.take(i as int),
            decreases self.operations@.len() - i,
        {
            let ghost prev = operations@;
            operations.push(clone_operation_record(&self.operations[i]));
            proof {
                lemma_map_push(prev, operations@.last(), |x: OperationRecord| x@);
                assert(self@.operations.take(i + 1) =~= self@.operations.take(i as int).push(self@.operations[i as int]));
            }
            i = i + 1;
        }
        let mut snapshots: Vec<Snapshot> = Vec::new();
        let mut i: usize = 0;
        while i < self.snapshots.len()
            invariant
                i <= self.snapshots@.len(),
                snapshots@.map_values(|x: Snapshot| x@) == self@.snapshots.take(i as int),
            decreases self.snapshots@.len() - i,
        {
            let ghost prev = snapshots@;
            snapshots.push(clone_snapshot(&self.snapshots[i]));
            proof {
                lemma_map_push(prev, snapshots@.last(), |x: Snapshot| x@);
                assert(self@.snapshots.take(i + 1) =~= self@.snapshots.take(i as int).push(self@.snapshots[i as int]));
            }
            i = i + 1;
        }
        let relations = self.list_relations();
        assert(self@.nodes.take(self@.nodes.len() as int) =~= self@.nodes);
        assert(self@.revisions.take(self@.revisions.len() as int) =~= self@.revisions);
        assert(self@.changes.take(self@.changes.len() as int) =~= self@.changes);
        assert(self@.operations.take(self@.operations.len() as int) =~= self@.operations);
        assert(self@.snapshots.take(self@.snapshots.len() as int) =~= self@.snapshots);
        DocTables {
            doc: self.doc.clone(),
            created_at: self.created_at.clone(),
            updated_at: self.updated_at.clone(),
            nodes,
            relations,
            revisions,
            changes,
            operations,
            snapshots,
        }
    }
}

} // verus!
