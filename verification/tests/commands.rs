use indexmap::IndexMap;
use aidoc::apply::apply_operation;
use aidoc::commands::{
    agent_op, branch_overview, check_branch_name, cli_branch_op, relation_op, ValidateFailure,
    build_op, current_head, default_from_rev, diff_snapshots, parse_kind, preview, seed_initial_revision, seed_root,
    DiffStatus,
};
use aidoc::id::NodeId;
use aidoc::model::{OperationType, Patch};
use aidoc::node::{Node, NodeKind};
use aidoc::provenance::{ActorKind, Provenance};
use aidoc::store::{Store, StoreError};
use aidoc::templates::{
    api_system_nodes, example_doc_id, knowledge_graph_nodes, order_system_nodes, scaffold_example, template_nodes,
};

#[test]
fn parse_kind_maps_every_supported_string() {
    let cases: &[(&str, &str)] = &[
        ("section", "section"),
        ("paragraph", "paragraph"),
        ("heading", "heading"),
        ("list", "list"),
        ("list-item", "listitem"),
        ("table", "table"),
        ("table-row", "tablerow"),
        ("table-cell", "tablecell"),
        ("code", "code"),
        ("blockquote", "blockquote"),
        ("link", "link"),
        ("image", "image"),
        ("diagram", "diagram"),
        ("code-ref", "coderef"),
        ("requirement", "requirement"),
        ("decision", "decision"),
        ("problem", "problem"),
        ("solution", "solution"),
        ("reference", "reference"),
        ("details", "details"),
        ("summary", "summary"),
        ("generic", "generic"),
    ];
    for (input, expected_dbg) in cases {
        let kind = parse_kind(input).unwrap_or_else(|e| panic!("{input}: {e}"));
        assert_eq!(format!("{kind:?}").to_lowercase(), *expected_dbg);
    }
}

#[test]
fn parse_kind_rejects_unknown() {
    assert!(parse_kind("not-a-kind").is_err());
    assert!(parse_kind("").is_err());
    assert_eq!(parse_kind("chart").unwrap_err(), "unknown kind: chart");
}

#[test]
fn build_op_attaches_human_provenance() {
    let store = Store::open_memory();
    let r = build_op(
        &store,
        "doc-test",
        OperationType::Update,
        Some(NodeId::from_validated("root")),
        Some(Patch { content: Some("hello".to_string()), ..Default::default() }),
        "test reason",
    );
    assert!(r.is_err(), "build_op must surface missing head as Err, not panic");
    assert_eq!(r.unwrap_err(), "no head revision");
}

#[test]
fn build_op_targets_the_head() {
    let mut store = Store::open_memory();
    seed_root(&mut store, "doc-b", "B").expect("seed");
    seed_initial_revision(&mut store, "doc-b", "seed").expect("rev");
    let op = build_op(&store, "doc-b", OperationType::Update, Some(NodeId::from_validated("root")), None, "why").unwrap();
    assert_eq!(op.expected_revision.as_str(), "R000");
    assert!(op.id.as_str().starts_with("OP-"));
    assert_eq!(op.reason.as_deref(), Some("why"));
    assert_eq!(op.op_type, OperationType::Update);
}

#[test]
fn seed_root_writes_a_root_node() {
    let mut store = Store::open_memory();
    seed_root(&mut store, "doc-x", "Hello").expect("seed");
    let nodes = store.list_nodes("doc-x");
    assert_eq!(nodes.len(), 1);
    assert_eq!(nodes[0].id.as_str(), "root");
    assert_eq!(nodes[0].content, "Hello");
    assert!(matches!(nodes[0].kind, NodeKind::Section));
}

#[test]
fn seed_root_twice_is_refused() {
    let mut store = Store::open_memory();
    seed_root(&mut store, "doc-x", "Hello").expect("seed");
    let err = seed_root(&mut store, "doc-x", "Again").unwrap_err();
    assert!(matches!(err, StoreError::Constraint(_)));
    assert_eq!(store.get_document("doc-x").unwrap().title, "Hello");
}

#[test]
fn seed_initial_revision_creates_R000() {
    let mut store = Store::open_memory();
    seed_root(&mut store, "doc-y", "T").expect("seed");
    seed_initial_revision(&mut store, "doc-y", "seed").expect("seed rev");
    let head = current_head(&store, "doc-y").expect("head");
    assert_eq!(head, "R000");
    assert_eq!(store.load_snapshot("doc-y", "R000").unwrap().len(), 1);
}

#[test]
fn seed_revision_needs_a_document() {
    let mut store = Store::open_memory();
    assert!(seed_initial_revision(&mut store, "nope", "seed").is_err());
    assert_eq!(current_head(&store, "nope").unwrap_err(), "no head revision");
}

#[test]
fn previews_are_one_clipped_line() {
    assert_eq!(preview("  hello  \nworld"), "hello");
    assert_eq!(preview("line\r\nnext"), "line");
    assert_eq!(preview(""), "");
    let long: String = "x".repeat(100);
    let p = preview(&long);
    assert_eq!(p.chars().count(), 81);
    assert!(p.ends_with('…'));
    assert_eq!(preview(&"y".repeat(80)), "y".repeat(80));
}

fn node(id: &str, content: &str) -> Node {
    let mut n = Node::new(NodeId::from_validated(id), NodeKind::Paragraph);
    n.content = content.to_string();
    n
}

#[test]
fn snapshot_diff_classifies_every_id() {
    let from = vec![node("b", "same"), node("a", "old"), node("gone", "x")];
    let to = vec![node("a", "new"), node("b", "same"), node("c", "fresh")];
    let d = diff_snapshots(&from, &to);
    let ids: Vec<&str> = d.entries.iter().map(|e| e.node.as_str()).collect();
    assert_eq!(ids, vec!["a", "b", "c", "gone"]);
    assert_eq!(d.entries[0].status, DiffStatus::Changed);
    assert_eq!(d.entries[1].status, DiffStatus::Unchanged);
    assert_eq!(d.entries[2].status, DiffStatus::Added);
    assert_eq!(d.entries[3].status, DiffStatus::Removed);
    assert_eq!((d.added, d.removed, d.changed, d.unchanged), (1, 1, 1, 1));
    assert_eq!(d.entries[0].before.as_deref(), Some("old"));
    assert_eq!(d.entries[0].after.as_deref(), Some("new"));
    assert_eq!(DiffStatus::Added.as_str(), "added");
}

#[test]
fn default_from_rev_picks_the_previous_revision() {
    let mut store = Store::open_memory();
    seed_root(&mut store, "d", "T").unwrap();
    seed_initial_revision(&mut store, "d", "seed").unwrap();
    let op = build_op(
        &store,
        "d",
        OperationType::Update,
        Some(NodeId::from_validated("root")),
        Some(Patch { content: Some("v2".to_string()), ..Default::default() }),
        "edit",
    )
    .unwrap();
    apply_operation(&mut store, "d", op).unwrap();
    assert_eq!(default_from_rev(&store, "d", "R001").unwrap(), "R000");
    assert_eq!(default_from_rev(&store, "d", "R000").unwrap(), "R000");
    assert_eq!(default_from_rev(&store, "d", "R009").unwrap_err(), "revision R009 not found");
}

#[test]
fn templates_hold_the_bundled_examples() {
    let order = order_system_nodes();
    assert_eq!(order.len(), 8);
    assert_eq!(order[0].id, "root");
    assert_eq!(order[0].content, "订单系统技术文档");
    assert_eq!(api_system_nodes().len(), 6);
    assert_eq!(knowledge_graph_nodes().len(), 5);
    assert_eq!(knowledge_graph_nodes()[0].content, "Knowledge Graph for Code Wiki");
    assert!(template_nodes("nope").unwrap_err().starts_with("unknown template: nope"));
    assert_eq!(example_doc_id("knowledge-graph"), "knowledge_graph");
}

#[test]
fn scaffolding_creates_every_template_node() {
    let mut store = Store::open_memory();
    let report = scaffold_example(&mut store, "api-system").expect("scaffold");
    assert_eq!(report.doc_id, "api_system");
    assert_eq!(report.title, "REST API 设计规范");
    assert_eq!(report.nodes, 6);
    let nodes = store.list_nodes("api_system");
    assert_eq!(nodes.len(), 5);
    assert_eq!(store.head_revision("api_system").as_deref(), Some("R005"));
    let auth = store.get_node("api_system", &NodeId::from_validated("auth")).unwrap();
    assert!(auth.content.starts_with("JWT Bearer Token"));
    let again = scaffold_example(&mut store, "api-system").unwrap_err();
    assert!(again.starts_with("seed R000: "), "{again}");
}

#[test]
fn branch_overview_lists_main_then_named_branches() {
    let mut store = Store::open_memory();
    seed_root(&mut store, "d", "T").unwrap();
    seed_initial_revision(&mut store, "d", "seed").unwrap();
    let mut attrs = IndexMap::new();
    attrs.insert("branch".to_string(), "zeta".to_string());
    let op = build_op(
        &store,
        "d",
        OperationType::Branch,
        None,
        Some(Patch { attributes: attrs, ..Default::default() }),
        "branch zeta",
    )
    .unwrap();
    apply_operation(&mut store, "d", op).unwrap();
    let info = branch_overview(&store, "d");
    assert_eq!(info.len(), 2);
    assert_eq!(info[0].name, "main");
    assert_eq!(info[0].revisions, 1);
    assert!(!info[0].current);
    assert_eq!(info[1].name, "zeta");
    assert_eq!(info[1].revisions, 1);
    assert_eq!(info[1].head.as_deref(), Some("R001"));
    assert!(info[1].current);
}

#[test]
fn validate_failure_exit_codes() {
    assert_eq!(ValidateFailure { count: 3 }.message(), "3 validation error(s)");
    assert_eq!(ValidateFailure { count: 0 }.exit_code(), 1);
    assert_eq!(ValidateFailure { count: 3 }.exit_code(), 3);
    assert_eq!(ValidateFailure { count: 400 }.exit_code(), 125);
}

#[test]
fn relation_op_links_source_to_target_on_head() {
    let mut store = Store::open_memory();
    assert_eq!(relation_op(&store, "d", OperationType::Link, "a", "b", "UI link").unwrap_err(), "no head revision");
    seed_root(&mut store, "d", "T").unwrap();
    seed_initial_revision(&mut store, "d", "seed").unwrap();
    let op = relation_op(&store, "d", OperationType::Link, "a", "b", "UI link").unwrap();
    assert_eq!(op.expected_revision.as_str(), "R000");
    assert_eq!(op.target.as_ref().map(|t| t.as_str()), Some("b"));
    assert_eq!(op.targets.len(), 1);
    assert_eq!(op.targets[0].as_str(), "a");
    assert!(op.patch.is_none());
    assert_eq!(op.reason.as_deref(), Some("UI link"));
}

#[test]
fn agent_op_targets_the_head_as_the_mcp_agent() {
    let mut store = Store::open_memory();
    let none = agent_op(&store, "d", OperationType::Create, "n1", Some("x".to_string()));
    assert_eq!(none.unwrap_err(), "no head revision");
    seed_root(&mut store, "d", "T").unwrap();
    seed_initial_revision(&mut store, "d", "seed").unwrap();
    let op = agent_op(&store, "d", OperationType::Create, "n1", Some("hello".to_string())).unwrap();
    assert_eq!(op.expected_revision.as_str(), "R000");
    assert_eq!(op.target.as_ref().map(|t| t.as_str()), Some("n1"));
    assert!(op.targets.is_empty());
    assert_eq!(op.reason.as_deref(), Some("mcp Create n1"));
    assert_eq!(op.patch.as_ref().and_then(|p| p.content.as_deref()), Some("hello"));
    assert!(op.id.as_str().starts_with("OP-"));
    match &op.actor {
        Provenance::Operation { actor, .. } => {
            assert!(matches!(actor.kind, ActorKind::Ai));
            assert_eq!(actor.agent.as_deref(), Some("mcp"));
        }
        _ => panic!("agent operations carry operation provenance"),
    }
    let del = agent_op(&store, "d", OperationType::Delete, "n1", None).unwrap();
    assert!(del.patch.is_none());
    assert_eq!(del.reason.as_deref(), Some("mcp Delete n1"));
}

#[test]
fn cli_branch_op_refuses_main_and_blank_names() {
    let mut store = Store::open_memory();
    assert_eq!(check_branch_name("main").unwrap_err(), "branch name must be non-empty and not 'main' (got \"main\")");
    assert_eq!(cli_branch_op(&store, "d", "  ", None).unwrap_err(), "branch name must be non-empty and not 'main' (got \"  \")");
    assert_eq!(cli_branch_op(&store, "d", "draft", None).unwrap_err(), "no head revision");
    seed_root(&mut store, "d", "T").unwrap();
    seed_initial_revision(&mut store, "d", "seed").unwrap();
    let op = cli_branch_op(&store, "d", "draft", Some("try it".to_string())).unwrap();
    assert_eq!(op.id.as_str(), "OP-branch-draft");
    assert_eq!(op.expected_revision.as_str(), "R000");
    assert!(op.target.is_none());
    assert_eq!(op.reason.as_deref(), Some("try it"));
    let attrs: Vec<(String, String)> =
        op.patch.as_ref().unwrap().attributes.iter().map(|(k, v)| (k.clone(), v.clone())).collect();
    assert_eq!(attrs, vec![("branch".to_string(), "draft".to_string())]);
    let out = apply_operation(&mut store, "d", op).unwrap();
    assert_eq!(out.revision.as_str(), "R001");
}
