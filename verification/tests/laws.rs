use indexmap::IndexMap;
use aidoc::apply::{apply_operation, OperationError};
use aidoc::check::CheckError;
use aidoc::branching::{checkout_branch, list_revisions};
use aidoc::commands::{seed_initial_revision, seed_root};
use aidoc::history::revert_to;
use aidoc::id::{NodeId, OpId, RevisionId};
use aidoc::model::{Operation, OperationType, Patch};
use aidoc::package::base64;
use aidoc::preview::{preview_operation, NodeDiff};
use aidoc::provenance::Provenance;
use aidoc::render::escape;
use aidoc::store::Store;

fn store_with_head() -> Store {
    let mut store = Store::open_memory();
    seed_root(&mut store, "d", "Title").unwrap();
    seed_initial_revision(&mut store, "d", "seed").unwrap();
    store
}

fn edit(id: &str, expected: &str, content: &str) -> Operation {
    Operation {
        id: OpId::new(id),
        op_type: OperationType::Update,
        target: Some(NodeId::from_validated("root")),
        expected_revision: RevisionId::new(expected),
        expected_hash: None,
        target_revision: None,
        targets: vec![],
        actor: Provenance::human(None),
        patch: Some(Patch { content: Some(content.to_string()), ..Default::default() }),
        reason: Some(format!("set {content}")),
    }
}

#[test]
fn every_applied_operation_appends_one_head_revision() {
    let mut store = store_with_head();
    let before: Vec<String> = list_revisions(&store, "d").iter().map(|r| r.id.as_str().to_string()).collect();
    let out = apply_operation(&mut store, "d", edit("OP-1", "R000", "one")).unwrap();
    let after: Vec<String> = list_revisions(&store, "d").iter().map(|r| r.id.as_str().to_string()).collect();
    assert_eq!(after.len(), before.len() + 1);
    assert_eq!(&after[..before.len()], &before[..]);
    assert_eq!(store.head_revision("d").unwrap(), out.revision.as_str());
    let snap = store.load_snapshot("d", out.revision.as_str()).unwrap();
    assert_eq!(snap[0].content, "one");
}

#[test]
fn refused_operation_changes_nothing() {
    let mut store = store_with_head();
    apply_operation(&mut store, "d", edit("OP-1", "R000", "one")).unwrap();
    let err = apply_operation(&mut store, "d", edit("OP-2", "R000", "two"));
    assert!(err.is_err());
    assert_eq!(store.head_revision("d").unwrap(), "R001");
    assert_eq!(store.list_nodes("d")[0].content, "one");
    assert_eq!(list_revisions(&store, "d").len(), 2);
}

#[test]
fn revert_appends_a_revision_and_restores_content() {
    let mut store = store_with_head();
    apply_operation(&mut store, "d", edit("OP-1", "R000", "one")).unwrap();
    apply_operation(&mut store, "d", edit("OP-2", "R001", "two")).unwrap();
    let out = revert_to(&mut store, "d", RevisionId::new("R001"), None).unwrap();
    assert_eq!(out.new_revision.as_str(), "R003");
    assert_eq!(out.nodes_touched, vec!["root".to_string()]);
    assert_eq!(store.list_nodes("d")[0].content, "one");
    assert_eq!(store.head_revision("d").unwrap(), "R003");
    assert_eq!(list_revisions(&store, "d").len(), 4);
    assert!(revert_to(&mut store, "d", RevisionId::new("R003"), None).is_err());
}

#[test]
fn checkout_creates_no_revision() {
    let mut store = store_with_head();
    let mut attrs = IndexMap::new();
    attrs.insert("branch".to_string(), "draft".to_string());
    let mut op = edit("OP-1", "R000", "x");
    op.op_type = OperationType::Branch;
    op.patch = Some(Patch { attributes: attrs, ..Default::default() });
    apply_operation(&mut store, "d", op).unwrap();
    apply_operation(&mut store, "d", edit("OP-2", "R001", "draft text")).unwrap();
    let count = list_revisions(&store, "d").len();
    let tip = checkout_branch(&mut store, "d", "main").unwrap();
    assert_eq!(tip, "R000");
    assert_eq!(list_revisions(&store, "d").len(), count);
    assert_eq!(store.list_nodes("d")[0].content, "Title");
}

#[test]
fn escaped_text_has_no_markup() {
    let e = escape("<a href='x'>\"q\" & z</a>");
    assert!(!e.contains('<') && !e.contains('>') && !e.contains('"') && !e.contains('\''));
    assert_eq!(e, "&lt;a href=&#39;x&#39;&gt;&quot;q&quot; &amp; z&lt;/a&gt;");
}

#[test]
fn base64_length_and_grouping() {
    for n in 0..10usize {
        let bytes: Vec<u8> = (0..n as u8).collect();
        assert_eq!(base64(&bytes).len(), 4 * ((n + 2) / 3));
    }
    assert_eq!(base64(b"foobar"), format!("{}{}", base64(b"foo"), base64(b"bar")));
}

#[test]
fn edits_keep_node_ids() {
    let mut store = store_with_head();
    let ids_before: Vec<String> = store.list_nodes("d").iter().map(|n| n.id.as_str().to_string()).collect();
    let mut op = edit("OP-1", "R000", "renamed");
    op.op_type = OperationType::Rename;
    apply_operation(&mut store, "d", op).unwrap();
    let ids_after: Vec<String> = store.list_nodes("d").iter().map(|n| n.id.as_str().to_string()).collect();
    assert_eq!(ids_before, ids_after);
}

#[test]
fn failure_messages_name_their_stage() {
    let e = OperationError::Check(CheckError::RevisionNotFound("R9".to_string()));
    assert_eq!(e.message(), "check failed: revision not found: R9");
    let c = aidoc::conflict::Conflict::node("x");
    assert!(c.to_display().contains("CONFLICT"));
}

#[test]
fn preview_reports_what_apply_does() {
    let mut store = store_with_head();
    let op = edit("OP-P1", "R000", "changed");
    let rep = preview_operation(&mut store, "d", &op).unwrap();
    assert_eq!(rep.current_revision.as_str(), "R000");
    assert_eq!(rep.next_revision.as_str(), "R001");
    assert!(rep.nodes.iter().any(|(id, d)| id.as_str() == "root" && matches!(d, NodeDiff::Modified { .. })));
    assert_eq!(store.head_revision("d").as_deref(), Some("R000"));
    let out = apply_operation(&mut store, "d", op).unwrap();
    assert_eq!(out.revision.as_str(), rep.next_revision.as_str());
    let stale = edit("OP-P2", "R000", "again");
    let p_err = preview_operation(&mut store, "d", &stale).unwrap_err();
    let a_err = apply_operation(&mut store, "d", stale).unwrap_err();
    assert_eq!(p_err.message(), a_err.message());
}

#[test]
fn demo_creates_updates_and_reverts() {
    let mut store = Store::open_memory();
    let rep = aidoc::demo::run_demo(&mut store).unwrap();
    assert_eq!(rep.after_create.as_str(), "R001");
    assert_eq!(rep.after_update.as_str(), "R002");
    assert_eq!(rep.new_head.as_str(), "R003");
    assert_eq!(rep.reverted_to.as_str(), "R001");
    let node = store.get_node("demo-doc", &NodeId::from_validated("architecture")).unwrap();
    assert_eq!(node.content, "系统采用微服务架构。");
    assert_eq!(store.head_revision("demo-doc").as_deref(), Some("R003"));
    let again = aidoc::demo::run_demo(&mut store).unwrap_err();
    assert!(again.starts_with("seed: "));
}

#[test]
fn revert_revision_gets_its_own_snapshot() {
    let mut store = store_with_head();
    apply_operation(&mut store, "d", edit("OP-S1", "R000", "one")).unwrap();
    apply_operation(&mut store, "d", edit("OP-S2", "R001", "two")).unwrap();
    let out = revert_to(&mut store, "d", RevisionId::new("R001"), None).unwrap();
    assert_eq!(out.new_revision.as_str(), "R003");
    let target = store.load_snapshot("d", "R001").unwrap();
    let snap = store.load_snapshot("d", "R003").unwrap();
    assert_eq!(snap.len(), target.len());
    assert_eq!(snap[0].content, "one");
    let tables = store.tables("d").unwrap();
    let rec = tables.operations.last().unwrap();
    match &rec.actor {
        Provenance::Operation { actor, .. } => assert!(actor.id.is_none()),
        _ => panic!("a revert is recorded as an operation"),
    }
}
