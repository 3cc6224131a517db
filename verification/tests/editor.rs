use aidoc::apply::apply_operation;
use aidoc::commands::{seed_initial_revision, seed_root};
use aidoc::editor::{
    create_branch_op, create_node_op, delete_node_op, move_node_op, read_info, set_node_attributes_op,
    set_node_kind_op, update_node_op,
};
use aidoc::id::NodeId;
use aidoc::model::OperationType;
use aidoc::node::NodeKind;
use aidoc::store::Store;

fn seeded() -> Store {
    let mut store = Store::open_memory();
    seed_root(&mut store, "d", "Title").unwrap();
    seed_initial_revision(&mut store, "d", "seed").unwrap();
    store
}

fn attrs_of(op: &aidoc::model::Operation) -> Vec<(String, String)> {
    op.patch.as_ref().map(|p| p.attributes.iter().map(|(k, v)| (k.clone(), v.clone())).collect()).unwrap_or_default()
}

#[test]
fn edits_need_a_head_revision() {
    let store = Store::open_memory();
    assert_eq!(update_node_op(&store, "d", "n", "x".to_string()).unwrap_err(), "no head revision");
    assert_eq!(delete_node_op(&store, "d", "n").unwrap_err(), "no head revision");
    assert_eq!(create_branch_op(&store, "d", "b").unwrap_err(), "no head revision");
    assert_eq!(move_node_op(&store, "d", "n", 1, None).unwrap_err(), "no head revision");
}

#[test]
fn unknown_kinds_are_refused_before_the_head_is_read() {
    let store = Store::open_memory();
    assert_eq!(
        create_node_op(&store, "d", "n", "widget", "x".to_string(), None).unwrap_err(),
        "unknown kind: widget"
    );
    assert_eq!(set_node_kind_op(&store, "d", "n", "widget").unwrap_err(), "unknown kind: widget");
}

#[test]
fn create_node_op_carries_kind_content_and_parent() {
    let store = seeded();
    let op = create_node_op(&store, "d", "intro", "paragraph", "Hello".to_string(), Some("root".to_string())).unwrap();
    assert!(matches!(op.op_type, OperationType::Create));
    assert_eq!(op.expected_revision.as_str(), "R000");
    assert_eq!(op.target.as_ref().map(|t| t.as_str()), Some("intro"));
    let patch = op.patch.as_ref().unwrap();
    assert_eq!(patch.content.as_deref(), Some("Hello"));
    assert_eq!(patch.semantic_type.as_deref(), Some("paragraph"));
    assert!(matches!(patch.kind, Some(NodeKind::Paragraph)));
    assert_eq!(attrs_of(&op), vec![("parent".to_string(), "root".to_string())]);
    assert_eq!(op.reason.as_deref(), Some("UI create"));
    assert!(op.id.as_str().starts_with("OP-"));
    let detached = create_node_op(&store, "d", "x", "code", "c".to_string(), None).unwrap();
    assert!(attrs_of(&detached).is_empty());
}

#[test]
fn created_node_lands_under_its_parent() {
    let mut store = seeded();
    let op = create_node_op(&store, "d", "intro", "paragraph", "Hello".to_string(), Some("root".to_string())).unwrap();
    let out = apply_operation(&mut store, "d", op).unwrap();
    assert_eq!(out.revision.as_str(), "R001");
    let node = store.get_node("d", &NodeId::from_validated("intro")).unwrap();
    assert_eq!(node.content, "Hello");
    assert_eq!(node.parent.as_ref().map(|p| p.as_str()), Some("root"));
}

#[test]
fn update_move_kind_and_attribute_edits() {
    let store = seeded();
    let up = update_node_op(&store, "d", "root", "New".to_string()).unwrap();
    assert!(matches!(up.op_type, OperationType::Update));
    assert_eq!(up.patch.as_ref().unwrap().content.as_deref(), Some("New"));
    assert_eq!(up.reason.as_deref(), Some("UI edit"));

    let mv = move_node_op(&store, "d", "a", 3, Some("b".to_string())).unwrap();
    assert!(matches!(mv.op_type, OperationType::Move));
    assert_eq!(mv.patch.as_ref().unwrap().position, Some(3));
    assert_eq!(attrs_of(&mv), vec![("parent".to_string(), "b".to_string())]);
    assert_eq!(mv.reason.as_deref(), Some("UI reorder"));

    let k = set_node_kind_op(&store, "d", "a", "list-item").unwrap();
    assert!(matches!(k.patch.as_ref().unwrap().kind, Some(NodeKind::ListItem)));
    assert!(k.patch.as_ref().unwrap().content.is_none());
    assert_eq!(k.reason.as_deref(), Some("UI change kind"));

    let attrs = vec![
        ("a".to_string(), "1".to_string()),
        ("b".to_string(), "2".to_string()),
        ("a".to_string(), "3".to_string()),
    ];
    let at = set_node_attributes_op(&store, "d", "n", attrs).unwrap();
    assert_eq!(attrs_of(&at), vec![("a".to_string(), "3".to_string()), ("b".to_string(), "2".to_string())]);
    assert_eq!(at.reason.as_deref(), Some("UI edit attributes"));

    let del = delete_node_op(&store, "d", "a").unwrap();
    assert!(matches!(del.op_type, OperationType::Delete));
    assert!(del.patch.is_none());
    assert_eq!(del.reason.as_deref(), Some("UI delete"));
}

#[test]
fn create_branch_op_names_the_branch() {
    let store = seeded();
    let op = create_branch_op(&store, "d", "draft").unwrap();
    assert!(matches!(op.op_type, OperationType::Branch));
    assert!(op.target.is_none());
    assert_eq!(attrs_of(&op), vec![("branch".to_string(), "draft".to_string())]);
    assert_eq!(op.reason.as_deref(), Some("branch draft"));
    assert!(op.id.as_str().starts_with("OP-branch-"));
}

#[test]
fn read_info_falls_back_to_seed_and_root() {
    let empty = Store::open_memory();
    let info = read_info(&empty, "d", "T");
    assert_eq!(info.head_revision, "R000");
    assert_eq!(info.entry, "root");
    let mut store = seeded();
    let op = update_node_op(&store, "d", "root", "New".to_string()).unwrap();
    apply_operation(&mut store, "d", op).unwrap();
    let info = read_info(&store, "d", "Title");
    assert_eq!(info.doc_id, "d");
    assert_eq!(info.title, "Title");
    assert_eq!(info.head_revision, "R001");
    assert_eq!(info.entry, "root");
}
