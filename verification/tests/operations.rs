use aidoc::apply::{apply_operation, apply_with_registry};
use indexmap::IndexMap;
use aidoc::branching::{checkout_branch, list_revisions, merge_branch, BranchError};
use aidoc::conflict::{Conflict, ConflictKind};
use aidoc::engine::{ApplyContext, ApplyError};
use aidoc::handler::{HandlerRegistry, OperationHandler};
use aidoc::history::revert_to;
use aidoc::id::{NodeId, OpId, RevisionId};
use aidoc::model::{Document, Operation, OperationType, Patch, Revision};
use aidoc::node::{Node, NodeKind};
use aidoc::provenance::Provenance;
use aidoc::store::{now, Store};

fn seeded(doc_id: &str, title: &str, root_content: &str) -> Store {
    let mut store = Store::open_memory();
    store.upsert_document(&Document::new(doc_id, title, NodeId::from_validated("root")));
    let mut root = Node::new(NodeId::from_validated("root"), NodeKind::Section);
    root.content = root_content.to_string();
    store.insert_node(doc_id, &root).expect("root");
    let rev = Revision {
        id: RevisionId::new("R000"),
        parent: None,
        operation: OpId::new("OP-000"),
        created_at: now(),
        message: Some("seed".to_string()),
        branch: None,
    };
    store.insert_revision(doc_id, &rev, true).expect("seed");
    store
}

fn head(store: &Store, doc: &str) -> String {
    store.head_revision(doc).expect("has head")
}

fn content_patch(content: &str) -> Patch {
    Patch { content: Some(content.to_string()), ..Default::default() }
}

fn plain_op(id: &str, op_type: OperationType, target: Option<&str>, expected: &str, patch: Option<Patch>) -> Operation {
    Operation {
        id: OpId::new(id),
        op_type,
        target: target.map(NodeId::from_validated),
        expected_revision: RevisionId::new(expected),
        expected_hash: None,
        target_revision: None,
        targets: vec![],
        actor: Provenance::human(Some("test".to_string())),
        patch,
        reason: None,
    }
}

fn field(c: &Conflict, key: &str) -> Option<String> {
    c.to_json().into_iter().find(|(k, _)| k == key).map(|(_, v)| v)
}

fn assert_conflict(err: ApplyError, kind: ConflictKind) -> Conflict {
    match err {
        ApplyError::Conflict(c) => {
            assert_eq!(c.kind, kind, "wrong conflict kind: {}", c.to_display());
            assert_eq!(field(&c, "status").as_deref(), Some("conflict"));
            assert_eq!(field(&c, "kind").as_deref(), Some(kind.as_str()));
            c
        }
        other => panic!("expected a conflict, got: {}", other.message()),
    }
}

const CDOC: &str = "conflict-doc";

#[test]
fn update_cannot_reparent_under_itself() {
    let mut store = seeded(CDOC, "Conflict Doc", "Conflict Doc");
    let created = apply_operation(
        &mut store,
        CDOC,
        plain_op("OP-1", OperationType::Create, Some("child"), "R000", Some(content_patch("text"))),
    )
    .expect("create child");
    let mut patch = Patch::default();
    patch.attributes.insert("parent".to_string(), "child".to_string());
    let op = plain_op("OP-2", OperationType::Update, Some("child"), created.revision.as_str(), Some(patch));
    let err = apply_operation(&mut store, CDOC, op).expect_err("self-parent must conflict");
    assert!(matches!(err, ApplyError::Conflict(_)));
}

#[test]
fn revision_conflict_is_structured() {
    let mut store = seeded(CDOC, "Conflict Doc", "Conflict Doc");
    let h = head(&store, CDOC);
    apply_operation(&mut store, CDOC, plain_op("OP-001", OperationType::Create, Some("database"), &h, Some(content_patch("v1"))))
        .expect("create");
    let err = apply_operation(&mut store, CDOC, plain_op("OP-002", OperationType::Update, Some("database"), "R000", Some(content_patch("v2"))))
        .expect_err("stale revision must conflict");
    let c = assert_conflict(err, ConflictKind::Revision);
    assert_eq!(c.expected.as_deref(), Some("R000"));
    assert_ne!(c.actual.as_deref(), Some("R000"));
    assert_eq!(field(&c, "expected_revision").as_deref(), Some("R000"));
}

#[test]
fn content_conflict_on_hash_mismatch() {
    let mut store = seeded(CDOC, "Conflict Doc", "Conflict Doc");
    let h = head(&store, CDOC);
    apply_operation(&mut store, CDOC, plain_op("OP-001", OperationType::Create, Some("database"), &h, Some(content_patch("v1"))))
        .expect("create");
    let actual = store
        .get_content_hash(CDOC, &NodeId::from_validated("database"))
        .expect("present");
    assert!(actual.starts_with("sha256:"), "unexpected hash: {actual}");
    let h2 = head(&store, CDOC);
    let mut op = plain_op("OP-002", OperationType::Update, Some("database"), &h2, Some(content_patch("v2")));
    op.expected_hash = Some("sha256:deadbeef".to_string());
    let err = apply_operation(&mut store, CDOC, op).expect_err("hash mismatch must conflict");
    let c = assert_conflict(err, ConflictKind::Content);
    assert_eq!(c.node.as_deref(), Some("database"));
    assert_eq!(field(&c, "expected_hash").as_deref(), Some("sha256:deadbeef"));
    assert_eq!(field(&c, "actual_hash").as_deref(), Some(actual.as_str()));

    let h3 = head(&store, CDOC);
    let mut op = plain_op("OP-003", OperationType::Update, Some("database"), &h3, Some(content_patch("v2")));
    op.expected_hash = Some(actual.clone());
    apply_operation(&mut store, CDOC, op).expect("matching hash applies");
    let node = store.get_node(CDOC, &NodeId::from_validated("database")).expect("exists");
    assert_eq!(node.content, "v2");
}

#[test]
fn node_conflict_on_missing_target() {
    let mut store = seeded(CDOC, "Conflict Doc", "Conflict Doc");
    let h = head(&store, CDOC);
    let err = apply_operation(&mut store, CDOC, plain_op("OP-001", OperationType::Update, Some("ghost"), &h, Some(content_patch("nope"))))
        .expect_err("missing target must conflict");
    let c = assert_conflict(err, ConflictKind::Node);
    assert_eq!(c.node.as_deref(), Some("ghost"));
}

fn link_op(id: &str, op_type: OperationType, src: &str, dst: &str, expected: &str) -> Operation {
    let mut op = plain_op(id, op_type, Some(dst), expected, None);
    op.targets = vec![NodeId::from_validated(src)];
    op
}

#[test]
fn relation_conflict_on_duplicate_link_and_absent_unlink() {
    let mut store = seeded(CDOC, "Conflict Doc", "Conflict Doc");
    let h = head(&store, CDOC);
    apply_operation(&mut store, CDOC, plain_op("OP-001", OperationType::Create, Some("a"), &h, Some(content_patch("A")))).expect("create a");
    let h = head(&store, CDOC);
    apply_operation(&mut store, CDOC, plain_op("OP-002", OperationType::Create, Some("b"), &h, Some(content_patch("B")))).expect("create b");
    let h = head(&store, CDOC);
    apply_operation(&mut store, CDOC, link_op("OP-003", OperationType::Link, "a", "b", &h)).expect("link");
    let h = head(&store, CDOC);
    let err = apply_operation(&mut store, CDOC, link_op("OP-004", OperationType::Link, "a", "b", &h))
        .expect_err("duplicate link must conflict");
    assert_conflict(err, ConflictKind::Relation);
    let h = head(&store, CDOC);
    apply_operation(&mut store, CDOC, link_op("OP-005", OperationType::Unlink, "a", "b", &h)).expect("unlink");
    let h = head(&store, CDOC);
    let err = apply_operation(&mut store, CDOC, link_op("OP-006", OperationType::Unlink, "a", "b", &h))
        .expect_err("absent unlink must conflict");
    assert_conflict(err, ConflictKind::Relation);
}

#[test]
fn structure_conflict_on_move_cycle() {
    let mut store = seeded(CDOC, "Conflict Doc", "Conflict Doc");
    let mut parent = Node::new(NodeId::from_validated("parent"), NodeKind::Section);
    parent.parent = Some(NodeId::from_validated("root"));
    parent.content = "parent".to_string();
    store.insert_node(CDOC, &parent).expect("seed parent");
    let mut child = Node::new(NodeId::from_validated("child"), NodeKind::Section);
    child.parent = Some(NodeId::from_validated("parent"));
    child.content = "child".to_string();
    store.insert_node(CDOC, &child).expect("seed child");

    let h = head(&store, CDOC);
    let mut attrs = IndexMap::new();
    attrs.insert("parent".to_string(), "child".to_string());
    let op = plain_op(
        "OP-010",
        OperationType::Move,
        Some("parent"),
        &h,
        Some(Patch { attributes: attrs, ..Default::default() }),
    );
    let err = apply_operation(&mut store, CDOC, op).expect_err("cycle must conflict");
    let c = assert_conflict(err, ConflictKind::Structure);
    assert_eq!(c.node.as_deref(), Some("parent"));
}

const TDOC: &str = "test-doc";

#[test]
fn create_update_revert_loop() {
    let mut store = seeded(TDOC, "Test Doc", "Test Doc");
    let mut create = plain_op(
        "OP-001",
        OperationType::Create,
        Some("database"),
        "R000",
        Some(content_patch("v1: 系统使用 MySQL 8.0。")),
    );
    create.reason = Some("create".to_string());
    let out1 = apply_operation(&mut store, TDOC, create).expect("create");
    assert_eq!(out1.revision.as_str(), "R001");

    let mut update = plain_op(
        "OP-002",
        OperationType::Update,
        Some("database"),
        out1.revision.as_str(),
        Some(content_patch("v2: 系统使用 MySQL 8.4，包含分库分表。")),
    );
    update.actor = Provenance::ai("test-agent".to_string(), Some("test-model".to_string()));
    update.reason = Some("update".to_string());
    let out2 = apply_operation(&mut store, TDOC, update).expect("update");
    assert_eq!(out2.revision.as_str(), "R002");

    let node = store.get_node(TDOC, &NodeId::from_validated("database")).expect("exists");
    assert!(node.content.contains("MySQL 8.4"));

    let outcome = revert_to(&mut store, TDOC, out1.revision.clone(), Some("test revert".to_string())).expect("revert");
    assert_eq!(outcome.target_revision.as_str(), "R001");
    assert_eq!(outcome.new_revision.as_str(), "R003");

    let node = store.get_node(TDOC, &NodeId::from_validated("database")).expect("exists");
    assert!(node.content.contains("MySQL 8.0"), "expected revert to R001 content, got: {}", node.content);
    assert!(!node.content.contains("8.4"));

    let revs = list_revisions(&store, TDOC);
    assert_eq!(revs.len(), 4, "expected 4 revisions, got {}", revs.len());
    assert_eq!(head(&store, TDOC), "R003");

    let mut stale = plain_op(
        "OP-999",
        OperationType::Update,
        Some("database"),
        "R000",
        Some(content_patch("should not apply")),
    );
    stale.actor = Provenance::human(None);
    let err = apply_operation(&mut store, TDOC, stale).expect_err("must conflict");
    let msg = err.message();
    assert!(msg.contains("conflict") || msg.contains("Conflict"), "expected conflict error, got: {msg}");
}

const HDOC: &str = "handler-ext-test";

fn handler_create_op() -> Operation {
    let mut op = plain_op("OP-001", OperationType::Create, Some("new-node"), "R000", Some(content_patch("hello")));
    op.actor = Provenance::human(None);
    op
}

struct NoopCreateHandler;

impl OperationHandler for NoopCreateHandler {
    fn kind(&self) -> OperationType {
        OperationType::Create
    }

    fn op_type(&self) -> OperationType {
        OperationType::Create
    }

    fn apply(&self, _ctx: &mut ApplyContext) -> Result<(), ApplyError> {
        Ok(())
    }
}

#[test]
fn custom_handler_overrides_builtin_create() {
    let mut store = seeded(HDOC, "Test Doc", "Test Doc");
    let mut registry = HandlerRegistry::default();
    registry.register(Box::new(NoopCreateHandler));
    let outcome = apply_with_registry(&mut store, HDOC, handler_create_op(), &registry)
        .expect("noop handler should succeed");
    assert!(outcome.revision.as_str().starts_with("R00"), "got {}", outcome.revision.as_str());
    let node = store.get_node(HDOC, &NodeId::from_validated("new-node"));
    assert!(node.is_none(), "custom noop handler should NOT have inserted the node");
}

#[test]
fn default_registry_applies_builtin_create() {
    let mut store = seeded(HDOC, "Test Doc", "Test Doc");
    let registry = HandlerRegistry::default();
    let outcome = apply_with_registry(&mut store, HDOC, handler_create_op(), &registry).expect("builtin create");
    assert!(outcome.revision.as_str().starts_with("R00"), "got {}", outcome.revision.as_str());
    let node = store.get_node(HDOC, &NodeId::from_validated("new-node")).expect("node exists");
    assert_eq!(node.content, "hello");
}

fn branch_op(id: &str, expected: &str, name: &str) -> Operation {
    let mut attrs = IndexMap::new();
    attrs.insert("branch".to_string(), name.to_string());
    let mut op = plain_op(id, OperationType::Branch, None, expected, Some(Patch { attributes: attrs, ..Default::default() }));
    op.actor = Provenance::human(Some("alice".to_string()));
    op.reason = Some("start ai draft".to_string());
    op
}

#[test]
fn branch_records_label_without_mutation() {
    let mut store = seeded(TDOC, "Test Doc", "Test Doc");
    let before_count = store.list_nodes(TDOC).len();
    let outcome = apply_operation(&mut store, TDOC, branch_op("OP-100", "R000", "ai-draft")).expect("branch apply");
    assert_eq!(outcome.revision.as_str(), "R001");
    let branch = store.get_branch(TDOC, "R001").expect("branch row present");
    assert_eq!(branch, "ai-draft");
    assert_eq!(store.list_nodes(TDOC).len(), before_count);
}

#[test]
fn branch_rejects_empty_name() {
    let mut store = seeded(TDOC, "Test Doc", "Test Doc");
    let err = apply_operation(&mut store, TDOC, branch_op("OP-101", "R000", "")).expect_err("empty name rejected");
    let msg = err.message();
    assert!(msg.contains("branch name"), "unexpected error: {msg}");
}

#[test]
fn branch_rejects_main_name() {
    let mut store = seeded(TDOC, "Test Doc", "Test Doc");
    let err = apply_operation(&mut store, TDOC, branch_op("OP-102", "R000", "main")).expect_err("main rejected");
    let msg = err.message();
    assert!(msg.contains("not 'main'"), "unexpected error: {msg}");
}

#[test]
fn branch_resolves_name_from_reason_when_attributes_missing() {
    let mut store = seeded(TDOC, "Test Doc", "Test Doc");
    let mut op = plain_op("OP-103", OperationType::Branch, None, "R000", None);
    op.actor = Provenance::human(Some("alice".to_string()));
    op.reason = Some("experimental".to_string());
    let outcome = apply_operation(&mut store, TDOC, op).expect("branch apply");
    let branch = store.get_branch(TDOC, outcome.revision.as_str()).expect("branch row present");
    assert_eq!(branch, "experimental");
}

const MDOC: &str = "merge-doc";

fn merge_setup() -> Store {
    let mut store = Store::open_memory();
    store.upsert_document(&Document::new(MDOC, "Merge", NodeId::from_validated("root")));
    store.insert_node(MDOC, &Node::new(NodeId::from_validated("root"), NodeKind::Section)).unwrap();
    for id in ["a", "b"] {
        let mut node = Node::new(NodeId::from_validated(id), NodeKind::Paragraph);
        node.parent = Some(NodeId::from_validated("root"));
        node.content = "base".to_string();
        store.insert_node(MDOC, &node).unwrap();
    }
    let rev = Revision {
        id: RevisionId::new("R000"),
        parent: None,
        operation: OpId::new("OP-0"),
        created_at: now(),
        message: None,
        branch: None,
    };
    store.insert_revision(MDOC, &rev, true).unwrap();
    let nodes = store.list_nodes(MDOC);
    store.save_snapshot(MDOC, "R000", &nodes);
    store
}

fn merge_op(kind: OperationType, target: Option<&str>, head: &str, id: &str, content: Option<&str>, branch: Option<&str>) -> Operation {
    let mut patch = Patch::default();
    patch.content = content.map(str::to_owned);
    if let Some(branch) = branch {
        patch.attributes.insert("branch".to_string(), branch.to_string());
    }
    let mut op = plain_op(id, kind, target, head, Some(patch));
    op.actor = Provenance::human(None);
    op
}

#[test]
fn merges_disjoint_node_edits_and_records_two_parents() {
    let mut store = merge_setup();
    let branch = apply_operation(&mut store, MDOC, merge_op(OperationType::Branch, None, "R000", "OP-1", None, Some("draft"))).unwrap();
    let tip = apply_operation(
        &mut store,
        MDOC,
        merge_op(OperationType::Update, Some("a"), branch.revision.as_str(), "OP-2", Some("draft edit"), None),
    )
    .unwrap();
    assert_eq!(store.get_branch(MDOC, tip.revision.as_str()).as_deref(), Some("draft"));
    checkout_branch(&mut store, MDOC, "main").unwrap();
    let main = apply_operation(&mut store, MDOC, merge_op(OperationType::Update, Some("b"), "R000", "OP-3", Some("main edit"), None)).unwrap();
    let merged = merge_branch(&mut store, MDOC, "draft", None).unwrap();
    assert_eq!(
        store.list_parents(MDOC, merged.as_str()),
        vec![main.revision.as_str().to_string(), tip.revision.as_str().to_string()]
    );
    assert_eq!(store.get_node(MDOC, &NodeId::from_validated("a")).unwrap().content, "draft edit");
    assert_eq!(store.get_node(MDOC, &NodeId::from_validated("b")).unwrap().content, "main edit");
}

#[test]
fn conflicting_edits_leave_head_unchanged() {
    let mut store = merge_setup();
    let branch = apply_operation(&mut store, MDOC, merge_op(OperationType::Branch, None, "R000", "OP-1", None, Some("draft"))).unwrap();
    apply_operation(
        &mut store,
        MDOC,
        merge_op(OperationType::Update, Some("a"), branch.revision.as_str(), "OP-2", Some("draft edit"), None),
    )
    .unwrap();
    checkout_branch(&mut store, MDOC, "main").unwrap();
    let main = apply_operation(&mut store, MDOC, merge_op(OperationType::Update, Some("a"), "R000", "OP-3", Some("main edit"), None)).unwrap();
    assert!(matches!(merge_branch(&mut store, MDOC, "draft", None), Err(BranchError::Conflicts(ids)) if ids == vec!["a".to_string()]));
    assert_eq!(store.head_revision(MDOC).unwrap(), main.revision.as_str());
}

#[test]
fn registered_handler_is_filed_under_its_own_type() {
    let mut reg = HandlerRegistry::new();
    assert!(reg.get(OperationType::Create).is_none());
    reg.register(Box::new(NoopCreateHandler));
    let h = reg.get(OperationType::Create).unwrap();
    assert!(matches!(h.op_type(), OperationType::Create));
    assert!(reg.get(OperationType::Update).is_none());
    let d = HandlerRegistry::default();
    assert!(d.get(OperationType::Revert).is_none());
    assert!(matches!(d.get(OperationType::Update).unwrap().op_type(), OperationType::Update));
}
