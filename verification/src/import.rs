//! Importing a canonical document payload (`document/document.json`) into the
//! store: the header, the nodes and relations are replaced and a revision
//! records the import, all or nothing.

use vstd::prelude::*;
use crate::attrs::{AttrMap, Entries, attr_entries};
use crate::id::{revision_text, NodeId, OpId, RevisionId};
use crate::model::{Document, DocumentV, Relation, RelationV, Revision, RevisionV};
use crate::node::{kind_from_text, Node, NodeKind, NodeV};
use crate::store::{
    advance_head_spec, digits_value, doc_index, doc_tables, head_spec, insert_node_spec,
    insert_relation_spec, insert_revision_spec, is_digit, lemma_digits_prefix_bound,
    lemma_doc_index, lemma_doc_index_update, nodes_view, save_snapshot_spec, with_tables,
    DocTables, DocTablesV, Store, StoreError, StoreErrorV,
};
use crate::engine::store_error_text;
use crate::text::{decimal, decimal_string, opt_str_view, owned, str_eq};
use crate::history::insert_nodes_spec;

verus! {

/// A node as the canonical format writes it: its kind is still free text.
pub struct RawNode {
    pub id: String,
    pub kind: String,
    pub parent: Option<String>,
    pub position: u32,
    pub semantic_type: Option<String>,
    pub content: String,
    pub attributes: AttrMap,
}

pub struct RawNodeV {
    pub id: Seq<char>,
    pub kind: Seq<char>,
    pub parent: Option<Seq<char>>,
    pub position: u32,
    pub semantic_type: Option<Seq<char>>,
    pub content: Seq<char>,
    pub attributes: Entries,
}

impl View for RawNode {
    type V = RawNodeV;

    open spec fn view(&self) -> RawNodeV {
        RawNodeV {
            id: self.id@,
            kind: self.kind@,
            parent: opt_str_view(self.parent),
            position: self.position,
            semantic_type: opt_str_view(self.semantic_type),
            content: self.content@,
            attributes: attr_entries(self.attributes),
        }
    }
}

/// The kind a raw kind name resolves to: unknown names become `Generic`.
pub open spec fn resolved_kind(text: Seq<char>) -> NodeKind {
    match kind_from_text(text) {
        Some(k) => k,
        None => NodeKind::Generic,
    }
}

/// An unknown kind name is kept as the semantic type, unless one is given.
pub open spec fn resolved_semantic_type(r: RawNodeV) -> Option<Seq<char>> {
    if kind_from_text(r.kind) is None {
        match r.semantic_type {
            Some(s) => Some(s),
            None => Some(r.kind),
        }
    } else {
        r.semantic_type
    }
}

/// The node a raw node stands for.
pub open spec fn raw_node_spec(r: RawNodeV) -> NodeV {
    NodeV {
        id: r.id,
        kind: resolved_kind(r.kind),
        parent: r.parent,
        position: r.position,
        semantic_type: resolved_semantic_type(r),
        content: r.content,
        attributes: r.attributes,
    }
}

/// Resolve the kind of a raw node; no data is lost for unknown kinds.
pub fn raw_to_node(r: RawNode) -> (n: Node)
    ensures
        n@ == raw_node_spec(r@),
{
    let RawNode { id, kind: kind_name, parent, position, semantic_type, content, attributes } = r;
    let parsed = NodeKind::parse(kind_name.as_str());
    let (kind, semantic_type) = match parsed {
        Some(k) => (k, semantic_type),
        None => {
            let st = match semantic_type {
                Some(s) => Some(s),
                None => Some(kind_name),
            };
            (NodeKind::Generic, st)
        },
    };
    let parent = match parent {
        Some(p) => Some(NodeId::from_string(p)),
        None => None,
    };
    Node { id: NodeId::from_string(id), kind, parent, position, semantic_type, content, attributes }
}

pub open spec fn raws_view(v: Seq<RawNode>) -> Seq<RawNodeV> {
    v.map_values(|r: RawNode| r@)
}

pub open spec fn resolved_nodes(raws: Seq<RawNodeV>) -> Seq<NodeV> {
    raws.map_values(|r: RawNodeV| raw_node_spec(r))
}

/// Resolve every raw node, in order.
pub fn resolve_nodes(raws: Vec<RawNode>) -> (r: Vec<Node>)
    ensures
        nodes_view(r@) == resolved_nodes(raws_view(raws@)),
{
    let ghost all = raws_view(raws@);
    let mut rest = raws;
    let mut out: Vec<Node> = Vec::new();
    assert(raws_view(rest@) =~= all.skip(0));
    while rest.len() > 0
        invariant
            out@.len() <= all.len(),
            raws_view(rest@) == all.skip(out@.len() as int),
            nodes_view(out@) == resolved_nodes(all.take(out@.len() as int)),
        decreases rest@.len(),
    {
        let ghost k = out@.len() as int;
        let ghost before = rest@;
        assert(raws_view(before).len() == all.len() - k);
        let r = rest.remove(0);
        assert(r@ == all[k]) by {
            assert(raws_view(before)[0] == before[0]@);
        }
        let n = raw_to_node(r);
        let ghost prev = out@;
        out.push(n);
        proof {
            assert forall|j: int| 0 <= j < k + 1 implies nodes_view(out@)[j] == resolved_nodes(all.take(k + 1))[j] by {
                if j < k {
                    assert(nodes_view(prev)[j] == resolved_nodes(all.take(k))[j]);
                }
            }
            assert(raws_view(rest@) =~= all.skip(k + 1)) by {
                assert forall|j: int| 0 <= j < rest@.len() implies raws_view(rest@)[j] == all.skip(k + 1)[j] by {
                    assert(rest@[j] == before[j + 1]);
                    assert(raws_view(before)[j + 1] == before[j + 1]@);
                }
            }
            assert(nodes_view(out@) =~= resolved_nodes(all.take(k + 1)));
        }
    }
    assert(all.take(all.len() as int) =~= all);
    out
}

/// Every character is a decimal digit.
pub open spec fn all_digits(s: Seq<char>) -> bool {
    forall|i: int| 0 <= i < s.len() ==> is_digit(#[trigger] s[i])
}

/// `s` without one leading `+`.
pub open spec fn unsigned_digits(s: Seq<char>) -> Seq<char> {
    if s.len() > 0 && s[0] == '+' {
        s.drop_first()
    } else {
        s
    }
}

/// `s.parse::<u32>()`: an optional `+`, then one or more decimal digits worth
/// at most `u32::MAX`.
pub open spec fn u32_value(s: Seq<char>) -> Option<nat> {
    let d = unsigned_digits(s);
    if d.len() > 0 && all_digits(d) && digits_value(d) <= u32::MAX {
        Some(digits_value(d))
    } else {
        None
    }
}

/// Parse `s` as a `u32` the way `str::parse` does.
pub fn parse_u32(s: &str) -> (r: Option<u32>)
    ensures
        match r {
            Some(v) => u32_value(s@) == Some(v as nat),
            None => u32_value(s@) is None,
        },
{
    let n = s.unicode_len();
    let mut start: usize = 0;
    if n > 0 && s.get_char(0) == '+' {
        start = 1;
    }
    let ghost d = unsigned_digits(s@);
    assert(d =~= s@.subrange(start as int, n as int));
    if start == n {
        return None;
    }
    let mut value: u64 = 0;
    let mut i: usize = start;
    assert(s@.subrange(start as int, start as int) =~= Seq::<char>::empty());
    while i < n
        invariant
            start <= i <= n,
            start < n,
            n == s@.len(),
            d == s@.subrange(start as int, n as int),
            d == unsigned_digits(s@),
            forall|k: int| start <= k < i ==> is_digit(#[trigger] s@[k]),
            value as nat == digits_value(s@.subrange(start as int, i as int)),
            value <= u32::MAX,
        decreases n - i,
    {
        let c = s.get_char(i);
        if !('0' <= c && c <= '9') {
            assert(d[i - start] == c);
            assert(!is_digit(d[i - start]));
            return None;
        }
        let dv = ((c as u32) - 48) as u64;
        assert(s@.subrange(start as int, i + 1).drop_last() =~= s@.subrange(start as int, i as int));
        assert(digits_value(s@.subrange(start as int, i + 1)) == value * 10 + dv);
        assert(value * 10 + dv <= 42949672959) by (nonlinear_arith)
            requires
                value <= 4294967295,
                dv <= 9,
        ;
        let next = value * 10 + dv;
        if next > 4294967295 {
            proof {
                if all_digits(d) {
                    assert(d.take(i + 1 - start) =~= s@.subrange(start as int, i + 1));
                    lemma_digits_prefix_bound(d, i + 1 - start);
                }
            }
            return None;
        }
        value = next;
        i = i + 1;
    }
    assert forall|k: int| 0 <= k < d.len() implies is_digit(#[trigger] d[k]) by {
        assert(d[k] == s@[start + k]);
    }
    Some(value as u32)
}

/// The revision id after `head`: `R` and the parsed number plus one,
/// zero-padded to three digits, or `R001` when `head` is not of that shape.
pub open spec fn bump_spec(head: Seq<char>) -> Seq<char> {
    if head.len() > 0 && head[0] == 'R' && u32_value(head.drop_first()) is Some {
        revision_text(u32_value(head.drop_first())->0 + 1)
    } else {
        "R001"@
    }
}

/// `head` is `R` followed by `u32::MAX`, whose successor does not fit.
pub open spec fn bump_overflows(head: Seq<char>) -> bool {
    head.len() > 0 && head[0] == 'R' && u32_value(head.drop_first()) == Some(u32::MAX as nat)
}

/// `R000` gives `R001`, `R012` gives `R013`; a malformed id gives `R001`.
pub fn bump_revision_id(head: &str) -> (r: String)
    requires
        !bump_overflows(head@),
    ensures
        r@ == bump_spec(head@),
{
    let n = head.unicode_len();
    if n > 0 && head.get_char(0) == 'R' {
        let rest = head.substring_char(1, n);
        assert(rest@ =~= head@.drop_first());
        match parse_u32(rest) {
            Some(v) => {
                let id = RevisionId::from_sequence((v as u64) + 1);
                return owned(id.as_str());
            },
            None => {},
        }
    }
    proof {
        reveal_strlit("R001");
    }
    owned("R001")
}

/// What the import revision's message says.
pub open spec fn import_message(nodes: nat, relations: nat) -> Seq<char> {
    "imported from canonical JSON ("@ + decimal(nodes) + " nodes, "@ + decimal(relations) + " relations)"@
}

fn import_message_string(nodes: usize, relations: usize) -> (r: String)
    ensures
        r@ == import_message(nodes as nat, relations as nat),
{
    let mut s = owned("imported from canonical JSON (");
    s.append(decimal_string(nodes as u64).as_str());
    s.append(" nodes, ");
    s.append(decimal_string(relations as u64).as_str());
    s.append(" relations)");
    s
}

/// Inserting the first `k` relations one after another.
pub open spec fn insert_relations_spec(t: DocTablesV, rels: Seq<RelationV>, k: nat) -> Result<DocTablesV, StoreErrorV>
    decreases k,
{
    if k == 0 {
        Ok(t)
    } else {
        match insert_relations_spec(t, rels, (k - 1) as nat) {
            Err(e) => Err(e),
            Ok(t1) => insert_relation_spec(t1, rels[k - 1]),
        }
    }
}

pub proof fn lemma_insert_relations_err(t: DocTablesV, rels: Seq<RelationV>, i: nat, k: nat)
    requires
        i <= k,
        insert_relations_spec(t, rels, i) is Err,
    ensures
        insert_relations_spec(t, rels, k) == insert_relations_spec(t, rels, i),
    decreases k,
{
    if k > i {
        lemma_insert_relations_err(t, rels, i, (k - 1) as nat);
    }
}

/// The head revision, or `R000` for a document without one.
pub open spec fn head_or_seed(t: DocTablesV) -> Seq<char> {
    match head_spec(t) {
        Some(h) => h,
        None => "R000"@,
    }
}

/// The revision that records an import.
pub open spec fn import_revision(next: Seq<char>, head: Seq<char>, ts: Seq<char>, nodes: nat, relations: nat) -> RevisionV {
    RevisionV {
        id: next,
        parent: Some(head),
        operation: "OP-IMPORT"@,
        created_at: ts,
        message: Some(import_message(nodes, relations)),
        branch: None,
    }
}

/// Importing into the tables `t`: the header becomes `doc`, the nodes and
/// relations are replaced, a revision after the head is recorded as the only
/// head and the nodes are saved as its snapshot; all at time `ts`. `fresh`
/// tables also take `ts` as their creation time. Gives the new tables and
/// the new revision id, or the first refusal.
pub open spec fn import_tables(
    t: DocTablesV,
    doc: DocumentV,
    nodes: Seq<NodeV>,
    rels: Seq<RelationV>,
    ts: Seq<char>,
    fresh: bool,
) -> Result<(DocTablesV, Seq<char>), StoreErrorV> {
    let t1 = DocTablesV { nodes: Seq::empty(), relations: Seq::empty(), ..t };
    match insert_nodes_spec(t1, nodes, nodes.len()) {
        Err(e) => Err(e),
        Ok(t2) => match insert_relations_spec(t2, rels, rels.len()) {
            Err(e) => Err(e),
            Ok(t3) => {
                let head = head_or_seed(t);
                let next = bump_spec(head);
                match insert_revision_spec(t3, import_revision(next, head, ts, nodes.len(), rels.len()), true) {
                    Err(e) => Err(e),
                    Ok(t4) => {
                        let t5 = save_snapshot_spec(advance_head_spec(t4, next), next, nodes, ts);
                        let created = if fresh { ts } else { t5.created_at };
                        Ok((DocTablesV { doc, updated_at: ts, created_at: created, ..t5 }, next))
                    },
                }
            },
        },
    }
}

/// Tables for a document the store does not hold yet.
pub open spec fn fresh_tables(doc: DocumentV) -> DocTablesV {
    DocTablesV {
        doc,
        created_at: Seq::empty(),
        updated_at: Seq::empty(),
        nodes: Seq::empty(),
        relations: Seq::empty(),
        revisions: Seq::empty(),
        changes: Seq::empty(),
        operations: Seq::empty(),
        snapshots: Seq::empty(),
    }
}

impl DocTables {
    /// Replace header, nodes and relations and record the import revision
    /// (see `import_tables`).
    pub fn import_payload(
        &mut self,
        doc: Document,
        nodes: &Vec<Node>,
        rels: &Vec<Relation>,
        ts: String,
        fresh: bool,
    ) -> (r: Result<String, StoreError>)
        requires
            !bump_overflows(head_or_seed(old(self)@)),
        ensures
            match import_tables(old(self)@, doc@, nodes_view(nodes@), rels@.map_values(|x: Relation| x@), ts@, fresh) {
                Ok((t, next)) => r matches Ok(x) && x@ == next && final(self)@ == t,
                Err(e) => r matches Err(x) && x@ == e,
            },
    {
        let ghost nv = nodes_view(nodes@);
        let ghost rv = rels@.map_values(|x: Relation| x@);
        let ghost t_old = self@;
        let head = match self.head_revision() {
            Some(h) => h,
            None => owned("R000"),
        };
        proof {
            reveal_strlit("R000");
        }
        assert(head@ == head_or_seed(t_old));
        let next = bump_revision_id(head.as_str());
        self.nodes = Vec::new();
        self.relations = Vec::new();
        let ghost t1 = self@;
        assert(t1.nodes =~= Seq::<crate::store::NodeRowV>::empty());
        assert(t1.relations =~= Seq::<RelationV>::empty());
        assert(t1 == DocTablesV { nodes: Seq::empty(), relations: Seq::empty(), ..t_old });
        let mut i: usize = 0;
        while i < nodes.len()
            invariant
                i <= nodes@.len(),
                nv == nodes_view(nodes@),
                rv == rels@.map_values(|x: Relation| x@),
                t1 == (DocTablesV { nodes: Seq::empty(), relations: Seq::empty(), ..old(self)@ }),
                insert_nodes_spec(t1, nv, i as nat) == Ok::<DocTablesV, StoreErrorV>(self@),
            decreases nodes@.len() - i,
        {
            assert(nv[i as int] == nodes@[i as int]@);
            let ghost tb = self@;
            match self.insert_node(&nodes[i]) {
                Ok(()) => {},
                Err(e) => {
                    proof {
                        assert(insert_nodes_spec(t1, nv, (i + 1) as nat) == insert_node_spec(tb, nv[i as int]));
                        crate::history::lemma_insert_nodes_err(t1, nv, (i + 1) as nat, nv.len());
                    }
                    return Err(e);
                },
            }
            i = i + 1;
        }
        let ghost t2 = self@;
        let mut k: usize = 0;
        while k < rels.len()
            invariant
                k <= rels@.len(),
                rv == rels@.map_values(|x: Relation| x@),
                nv == nodes_view(nodes@),
                t1 == (DocTablesV { nodes: Seq::empty(), relations: Seq::empty(), ..old(self)@ }),
                insert_nodes_spec(t1, nv, nv.len()) == Ok::<DocTablesV, StoreErrorV>(t2),
                insert_relations_spec(t2, rv, k as nat) == Ok::<DocTablesV, StoreErrorV>(self@),
            decreases rels@.len() - k,
        {
            assert(rv[k as int] == rels@[k as int]@);
            let ghost tb = self@;
            match self.insert_relation(&rels[k]) {
                Ok(()) => {},
                Err(e) => {
                    proof {
                        assert(insert_relations_spec(t2, rv, (k + 1) as nat) == insert_relation_spec(tb, rv[k as int]));
                        lemma_insert_relations_err(t2, rv, (k + 1) as nat, rv.len());
                    }
                    return Err(e);
                },
            }
            k = k + 1;
        }
        let ghost t3 = self@;
        let rev = Revision {
            id: RevisionId::new(next.as_str()),
            parent: Some(RevisionId::new(head.as_str())),
            operation: OpId::new("OP-IMPORT"),
            created_at: ts.clone(),
            message: Some(import_message_string(nodes.len(), rels.len())),
            branch: None,
        };
        proof {
            reveal_strlit("OP-IMPORT");
        }
        assert(rev@ == import_revision(next@, head@, ts@, nv.len(), rv.len()));
        match self.insert_revision(&rev, true) {
            Ok(()) => {},
            Err(e) => {
                return Err(e);
            },
        }
        self.advance_head(next.as_str());
        self.save_snapshot_at(next.as_str(), nodes, ts.clone());
        if fresh {
            self.created_at = ts.clone();
        }
        self.updated_at = ts;
        self.doc = doc;
        Ok(next)
    }
}

/// A canonical payload: the document header, its nodes and relations.
pub struct CanonicalPayload {
    pub document: Document,
    pub nodes: Vec<RawNode>,
    pub relations: Vec<Relation>,
}

pub struct CanonicalPayloadV {
    pub document: DocumentV,
    pub nodes: Seq<RawNodeV>,
    pub relations: Seq<RelationV>,
}

impl View for CanonicalPayload {
    type V = CanonicalPayloadV;

    open spec fn view(&self) -> CanonicalPayloadV {
        CanonicalPayloadV {
            document: self.document@,
            nodes: raws_view(self.nodes@),
            relations: self.relations@.map_values(|x: Relation| x@),
        }
    }
}

/// Why an import was refused.
#[derive(Debug)]
pub enum ImportError {
    Store(StoreError),
    DocumentIdMismatch { package_doc: String, import_doc: String },
}

pub enum ImportErrorV {
    Store(StoreErrorV),
    DocumentIdMismatch { package_doc: Seq<char>, import_doc: Seq<char> },
}

impl View for ImportError {
    type V = ImportErrorV;

    open spec fn view(&self) -> ImportErrorV {
        match self {
            ImportError::Store(e) => ImportErrorV::Store(e@),
            ImportError::DocumentIdMismatch { package_doc, import_doc } => ImportErrorV::DocumentIdMismatch {
                package_doc: package_doc@,
                import_doc: import_doc@,
            },
        }
    }
}

pub open spec fn import_error_text(e: ImportErrorV) -> Seq<char> {
    match e {
        ImportErrorV::Store(s) => "store: "@ + store_error_text(s),
        ImportErrorV::DocumentIdMismatch { package_doc, import_doc } => "document id mismatch: package has "@
            + package_doc + ", import has "@ + import_doc,
    }
}

impl ImportError {
    /// The human-readable message.
    pub fn message(&self) -> (r: String)
        ensures
            r@ == import_error_text(self@),
    {
        match self {
            ImportError::Store(e) => {
                let mut s = owned("store: ");
                s.append(e.message().as_str());
                s
            },
            ImportError::DocumentIdMismatch { package_doc, import_doc } => {
                let mut s = owned("document id mismatch: package has ");
                s.append(package_doc.as_str());
                s.append(", import has ");
                s.append(import_doc.as_str());
                s
            },
        }
    }
}

/// The import cannot run out of revision numbers.
pub open spec fn import_allowed(s: Seq<DocTablesV>, doc: Seq<char>) -> bool {
    match doc_tables(s, doc) {
        Some(t) => !bump_overflows(head_or_seed(t)),
        None => true,
    }
}

/// Importing payload `p` into the package of document `doc` at time `ts`:
/// the new store and revision id, or the refusal.
pub open spec fn import_spec(s: Seq<DocTablesV>, doc: Seq<char>, p: CanonicalPayloadV, ts: Seq<char>) -> Result<(Seq<DocTablesV>, Seq<char>), ImportErrorV> {
    if p.document.id != doc {
        Err(ImportErrorV::DocumentIdMismatch { package_doc: doc, import_doc: p.document.id })
    } else {
        let nodes = resolved_nodes(p.nodes);
        match doc_tables(s, doc) {
            Some(t) => match import_tables(t, p.document, nodes, p.relations, ts, false) {
                Err(e) => Err(ImportErrorV::Store(e)),
                Ok((t2, next)) => Ok((with_tables(s, doc, t2), next)),
            },
            None => match import_tables(fresh_tables(p.document), p.document, nodes, p.relations, ts, true) {
                Err(e) => Err(ImportErrorV::Store(e)),
                Ok((t2, next)) => Ok((s.push(t2), next)),
            },
        }
    }
}

/// What `import_document` promises: the outcome of `import_spec` at the
/// time stamped on the imported tables; nothing changes on a refusal.
pub open spec fn import_post(
    r: Result<String, ImportError>,
    before: Seq<DocTablesV>,
    after: Seq<DocTablesV>,
    doc: Seq<char>,
    p: CanonicalPayloadV,
) -> bool {
    match import_spec(before, doc, p, doc_tables(after, doc)->0.updated_at) {
        Err(e) => r matches Err(x) && x@ == e && after == before,
        Ok((s2, next)) => r matches Ok(x) && x@ == next && after == s2,
    }
}

/// Import `payload` into the package whose document is `package_doc_id`;
/// gives the new head revision id.
pub fn import_document(store: &mut Store, package_doc_id: &str, payload: CanonicalPayload) -> (r: Result<String, ImportError>)
    requires
        import_allowed(old(store)@, package_doc_id@),
    ensures
        import_post(r, old(store)@, final(store)@, package_doc_id@, payload@),
{
    let ghost p = payload@;
    let ghost s0 = store@;
    let CanonicalPayload { document, nodes: raws, relations } = payload;
    if !str_eq(document.id.as_str(), package_doc_id) {
        return Err(ImportError::DocumentIdMismatch {
            package_doc: owned(package_doc_id),
            import_doc: document.id,
        });
    }
    let nodes = resolve_nodes(raws);
    let ts = crate::store::now();
    let ghost ts_v = ts@;
    proof {
        lemma_doc_index(s0, package_doc_id@);
    }
    match store.checkout_tables(package_doc_id) {
        Some((i, original)) => {
            let mut work = original.clone_tables();
            match work.import_payload(document, &nodes, &relations, ts, false) {
                Ok(next) => {
                    let ghost t2 = work@;
                    store.restore_tables(i, work);
                    proof {
                        assert(store@ == s0.update(i as int, t2));
                        lemma_doc_index_update(s0, package_doc_id@, t2);
                        assert(doc_tables(store@, package_doc_id@) == Some(t2));
                    }
                    Ok(next)
                },
                Err(e) => {
                    store.restore_tables(i, original);
                    assert(store@ =~= s0);
                    Err(ImportError::Store(e))
                },
            }
        },
        None => {
            let mut work = DocTables {
                doc: document.clone(),
                created_at: String::new(),
                updated_at: String::new(),
                nodes: Vec::new(),
                relations: Vec::new(),
                revisions: Vec::new(),
                changes: Vec::new(),
                operations: Vec::new(),
                snapshots: Vec::new(),
            };
            assert(work@.nodes =~= Seq::<crate::store::NodeRowV>::empty());
            assert(work@.relations =~= Seq::<RelationV>::empty());
            assert(work@.revisions =~= Seq::<crate::store::RevisionRowV>::empty());
            assert(work@.changes =~= Seq::<crate::model::ChangeV>::empty());
            assert(work@.operations =~= Seq::<crate::store::OperationRecordV>::empty());
            assert(work@.snapshots =~= Seq::<crate::store::SnapshotV>::empty());
            assert(work@ == fresh_tables(document@));
            proof {
                assert(head_spec(work@) is None) by {
                    crate::store::lemma_first_pos(work@.revisions, crate::store::is_head_row());
                }
                reveal_strlit("R000");
                assert(!bump_overflows("R000"@));
            }
            match work.import_payload(document, &nodes, &relations, ts, true) {
                Ok(next) => {
                    let ghost t2 = work@;
                    store.add_tables(work);
                    proof {
                        assert(store@.drop_last() =~= s0);
                        assert(doc_tables(store@, package_doc_id@) == Some(t2));
                    }
                    Ok(next)
                },
                Err(e) => Err(ImportError::Store(e)),
            }
        },
    }
}

} // verus!
