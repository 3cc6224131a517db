use std::str::FromStr;
use aidoc::apply::apply_operation;
use indexmap::IndexMap;
use aidoc::engine::ApplyError;
use aidoc::export::{export, export_html, export_markdown, exporter_for, ExportFormat, ExportInput, Exporter};
use aidoc::id::{NodeId, OpId, RevisionId};
use aidoc::import::{bump_revision_id, import_document, parse_u32, raw_to_node, CanonicalPayload, ImportError, RawNode};
use aidoc::model::{Document, Operation, OperationType, Patch, Relation, RelationKind, Revision};
use aidoc::node::{Node, NodeKind};
use aidoc::package::{AssetError, check_image_file, image_asset, valid_asset_path, image_mime, inline_image_assets, minimal_html, AssetFile, Manifest, ManifestDocument, ManifestRevision, ManifestStorage};
use aidoc::preview::{preview_operation, NodeDiff, RelationDiff};
use aidoc::provenance::{Actor, ActorKind, Provenance};
use aidoc::render::{escape, render_html};
use aidoc::store::{now, Store};
use aidoc::commands::{seed_initial_revision, seed_root};

fn make_node(id: &str, kind: NodeKind, content: &str) -> Node {
    let mut n = Node::new(NodeId::from_validated(id), kind);
    n.content = content.to_string();
    n
}

fn relation(id: &str, source: &NodeId, target: &NodeId, kind: RelationKind) -> Relation {
    Relation {
        id: id.to_string(),
        source: source.clone(),
        target: target.clone(),
        kind,
        custom_kind: None,
        attributes: IndexMap::new(),
    }
}

#[test]
fn renders_minimal_doc() {
    let doc = Document::new("d1", "Demo", NodeId::from_validated("root"));
    let root = Node::new(NodeId::from_validated("root"), NodeKind::Section);
    let html = render_html(&doc, &[root], &[], None);
    assert!(html.contains("<h1"));
    assert!(html.contains("Demo"));
    assert!(html.ends_with("</html>\n"));
}

#[test]
fn toc_contains_nested_sections_and_headings() {
    let doc = Document::new("d1", "Doc", NodeId::from_validated("root"));
    let root = make_node("root", NodeKind::Section, "Doc");
    let mut sec1 = make_node("s1", NodeKind::Section, "Section One");
    sec1.parent = Some(NodeId::from_validated("root"));
    let mut h1 = make_node("h1", NodeKind::Heading, "Heading One");
    h1.parent = Some(NodeId::from_validated("s1"));
    let mut sec2 = make_node("s2", NodeKind::Section, "Section Two");
    sec2.parent = Some(NodeId::from_validated("root"));
    let html = render_html(&doc, &[root, sec1, h1, sec2], &[], None);
    assert!(html.contains("<nav class=\"aidoc-toc\""), "toc nav missing");
    assert!(html.contains("href=\"#s1\""));
    assert!(html.contains("href=\"#h1\""));
    assert!(html.contains("href=\"#s2\""));
    let s1_open = html.find("href=\"#s1\"").unwrap();
    let h1_pos = html.find("href=\"#h1\"").unwrap();
    assert!(h1_pos > s1_open, "h1 link should appear after s1 link (nested)");
}

#[test]
fn toc_skips_root_section() {
    let doc = Document::new("d1", "Title", NodeId::from_validated("root"));
    let root = make_node("root", NodeKind::Section, "Title");
    let html = render_html(&doc, &[root], &[], None);
    assert!(!html.contains("href=\"#root\""), "root leaked into TOC");
}

#[test]
fn renders_incoming_and_outgoing_relations_as_links() {
    let doc = Document::new("d1", "Doc", NodeId::from_validated("root"));
    let root = make_node("root", NodeKind::Section, "Doc");
    let mut target = make_node("target", NodeKind::Paragraph, "Target title");
    target.parent = Some(root.id.clone());
    let rel = relation("rel-1", &root.id, &target.id, RelationKind::DependsOn);
    let html = render_html(&doc, &[root.clone(), target], &[rel], None);
    assert!(html.contains("→ depends-on"));
    assert!(html.contains("← depends-on"));
    assert!(html.contains("href=\"#target\">Target title</a>"));
}

#[test]
fn render_escapes_content() {
    let doc = Document::new("d1", "<T&>", NodeId::from_validated("root"));
    let root = make_node("root", NodeKind::Section, "a < b & \"c\"");
    let html = render_html(&doc, &[root], &[], None);
    assert!(html.contains("a &lt; b &amp; &quot;c&quot;"));
    assert!(!html.contains("a < b"));
    assert_eq!(escape("<'&'>"), "&lt;&#39;&amp;&#39;&gt;");
}

#[test]
fn exports_md_title() {
    let doc = Document::new("d1", "Demo Title", NodeId::from_validated("root"));
    let out = export_markdown(&doc, &[]);
    assert!(out.contains("# Demo Title"));
}

#[test]
fn dispatch_matches_direct_call() {
    let doc = Document::new("d1", "Demo Title", NodeId::from_validated("root"));
    let input = ExportInput { doc: &doc, nodes: &[], relations: &[], branch: None };
    assert_eq!(export(ExportFormat::Markdown, &input), export_markdown(&doc, &[]));
}

#[test]
fn markdown_export_includes_relation_links() {
    let doc = Document::new("d1", "Doc", NodeId::from_validated("root"));
    let root = make_node("root", NodeKind::Section, "Doc");
    let mut target = make_node("target", NodeKind::Paragraph, "Target");
    target.parent = Some(root.id.clone());
    let rel = relation("r", &root.id, &target.id, RelationKind::References);
    let out = export(
        ExportFormat::Markdown,
        &ExportInput { doc: &doc, nodes: &[root, target], relations: &[rel], branch: None },
    );
    assert!(out.contains("→ `references` [Target](#target)"));
    assert!(out.contains("← `references` [Doc](#root)"));
}

fn preview_store() -> Store {
    let mut store = Store::open_memory();
    store.upsert_document(&Document::new("d", "T", NodeId::from_validated("root")));
    store.insert_node("d", &make_node("root", NodeKind::Section, "Hello")).unwrap();
    let rev = Revision {
        id: RevisionId::new("R000"),
        parent: None,
        operation: OpId::new("OP-000"),
        created_at: now(),
        message: Some("seed".to_string()),
        branch: None,
    };
    store.insert_revision("d", &rev, true).unwrap();
    store
}

fn tester_op(id: &str, kind: OperationType, target: Option<NodeId>, patch: Option<Patch>) -> Operation {
    Operation {
        id: OpId::new(id),
        op_type: kind,
        target,
        targets: Vec::new(),
        expected_revision: RevisionId::new("R000"),
        expected_hash: None,
        target_revision: None,
        actor: Provenance::Operation {
            actor: Actor { kind: ActorKind::Human, id: Some("tester".to_string()), agent: None, model: None },
            task: None,
            reason: None,
            prompt: None,
            tool_calls: Vec::new(),
            temperature: None,
            input_refs: IndexMap::new(),
            output: None,
            reasoning_summary: None,
        },
        patch,
        reason: None,
    }
}

#[test]
fn preview_does_not_mutate_store() {
    let mut store = preview_store();
    let op = tester_op(
        "op-1",
        OperationType::Update,
        Some(NodeId::from_validated("root")),
        Some(Patch { content: Some("Goodbye".to_string()), ..Default::default() }),
    );
    let report = preview_operation(&mut store, "d", &op).expect("preview");
    assert_eq!(report.next_revision.as_str(), "R001");
    assert_eq!(report.summary, "preview: +0 nodes, -0 nodes, ~1 modified, +0 relations, -0 relations");
    let live = store.list_nodes("d");
    assert_eq!(live.len(), 1);
    assert_eq!(live[0].content, "Hello");
    assert_eq!(store.head_revision("d").as_deref(), Some("R000"));
}

#[test]
fn preview_reports_added_and_removed_nodes() {
    let mut store = preview_store();
    let create = tester_op(
        "op-c",
        OperationType::Create,
        Some(NodeId::from_validated("p1")),
        Some(Patch {
            content: Some("world".to_string()),
            kind: Some(NodeKind::Paragraph),
            position: Some(0),
            ..Default::default()
        }),
    );
    let r1 = preview_operation(&mut store, "d", &create).unwrap();
    assert!(matches!(r1.nodes.as_slice(), [(id, NodeDiff::Added { .. })] if id.as_str() == "p1"));
    let del = tester_op("op-d", OperationType::Delete, Some(NodeId::from_validated("root")), None);
    let r2 = preview_operation(&mut store, "d", &del).unwrap();
    assert!(r2.nodes.iter().any(|(id, d)| id.as_str() == "root" && matches!(d, NodeDiff::Removed { .. })));
    assert_eq!(store.head_revision("d").as_deref(), Some("R000"));
}

#[test]
fn preview_propagates_conflict_errors() {
    let mut store = preview_store();
    let mut op = tester_op(
        "op-x",
        OperationType::Update,
        Some(NodeId::from_validated("root")),
        Some(Patch { content: Some("x".to_string()), ..Default::default() }),
    );
    op.expected_revision = RevisionId::new("R999");
    let err = preview_operation(&mut store, "d", &op).unwrap_err();
    assert!(matches!(err, ApplyError::Conflict(_)));
}

#[test]
fn preview_link_and_unlink_diff_relations() {
    let mut store = preview_store();
    let create = tester_op(
        "op-c",
        OperationType::Create,
        Some(NodeId::from_validated("p1")),
        Some(Patch {
            content: Some("hi".to_string()),
            kind: Some(NodeKind::Paragraph),
            position: Some(0),
            ..Default::default()
        }),
    );
    apply_operation(&mut store, "d", create).unwrap();
    let mut attrs = IndexMap::new();
    attrs.insert("relation_kind".to_string(), "depends-on".to_string());
    let mut link = tester_op(
        "op-link",
        OperationType::Link,
        Some(NodeId::from_validated("root")),
        Some(Patch { attributes: attrs, ..Default::default() }),
    );
    link.expected_revision = RevisionId::new("R001");
    link.targets = vec![NodeId::from_validated("p1")];
    let report = preview_operation(&mut store, "d", &link).unwrap();
    assert!(report.relations.iter().any(|(_, d)| matches!(d, RelationDiff::Added { .. })));
    apply_operation(&mut store, "d", link).unwrap();
    let mut unlink = tester_op("op-unlink", OperationType::Unlink, Some(NodeId::from_validated("root")), None);
    unlink.expected_revision = RevisionId::new("R002");
    unlink.targets = vec![NodeId::from_validated("p1")];
    let report = preview_operation(&mut store, "d", &unlink).unwrap();
    assert!(report.relations.iter().any(|(_, d)| matches!(d, RelationDiff::Removed { .. })));
    assert_eq!(store.list_relations("d").len(), 1, "link op was applied, should remain");
}

fn raw(id: &str, kind: &str, parent: Option<&str>, content: &str) -> RawNode {
    RawNode {
        id: id.to_string(),
        kind: kind.to_string(),
        parent: parent.map(str::to_string),
        position: 0,
        semantic_type: None,
        content: content.to_string(),
        attributes: IndexMap::new(),
    }
}

fn sample_canonical(doc_id: &str, p1_kind: &str) -> CanonicalPayload {
    CanonicalPayload {
        document: Document::new(doc_id, "Imported Demo", NodeId::from_validated("root")),
        nodes: vec![raw("root", "section", None, "Imported Demo"), raw("p1", p1_kind, Some("root"), "Hello")],
        relations: vec![],
    }
}

fn import_seed(doc_id: &str, title: &str) -> Store {
    let mut store = Store::open_memory();
    store.upsert_document(&Document::new(doc_id, title, NodeId::from_validated("root")));
    store.insert_node(doc_id, &make_node("root", NodeKind::Section, "placeholder")).unwrap();
    let rev = Revision {
        id: RevisionId::new("R000"),
        parent: None,
        operation: OpId::new("OP-000"),
        created_at: now(),
        message: Some("seed".to_string()),
        branch: None,
    };
    store.insert_revision(doc_id, &rev, true).unwrap();
    store
}

#[test]
fn round_trip_import_then_save_preserves_nodes() {
    let mut store = import_seed("demo", "Imported Demo");
    let new_head = import_document(&mut store, "demo", sample_canonical("demo", "paragraph")).expect("import must succeed");
    assert_eq!(new_head, "R001");
    let nodes = store.list_nodes("demo");
    assert_eq!(nodes.len(), 2);
    let ids: Vec<&str> = nodes.iter().map(|n| n.id.as_str()).collect();
    assert!(ids.contains(&"root") && ids.contains(&"p1"));
    assert_eq!(store.get_document("demo").unwrap().title, "Imported Demo");
    assert_eq!(store.head_revision("demo").as_deref(), Some("R001"));
    assert_eq!(store.load_snapshot("demo", "R001").unwrap().len(), 2);
}

#[test]
fn document_id_mismatch_is_rejected() {
    let mut store = import_seed("demo", "Demo");
    let err = import_document(&mut store, "demo", sample_canonical("other", "paragraph")).unwrap_err();
    assert!(matches!(err, ImportError::DocumentIdMismatch { .. }));
    assert_eq!(err.message(), "document id mismatch: package has demo, import has other");
    assert_eq!(store.list_nodes("demo")[0].content, "placeholder");
}

#[test]
fn unknown_kind_falls_back_to_generic_with_semantic_type() {
    let mut store = import_seed("demo", "D");
    import_document(&mut store, "demo", sample_canonical("demo", "com.example.chart")).expect("import ok");
    let nodes = store.list_nodes("demo");
    let chart = nodes.iter().find(|n| n.id.as_str() == "p1").unwrap();
    assert_eq!(chart.kind, NodeKind::Generic);
    assert_eq!(chart.semantic_type.as_deref(), Some("com.example.chart"));
}

#[test]
fn import_into_empty_store_creates_document() {
    let mut store = Store::open_memory();
    let head = import_document(&mut store, "demo", sample_canonical("demo", "paragraph")).expect("import");
    assert_eq!(head, "R001");
    assert_eq!(store.head_revision("demo").as_deref(), Some("R001"));
    assert_eq!(store.list_nodes("demo").len(), 2);
}

#[test]
fn import_with_duplicate_node_ids_changes_nothing() {
    let mut store = import_seed("demo", "Demo");
    let mut payload = sample_canonical("demo", "paragraph");
    payload.nodes.push(raw("p1", "paragraph", Some("root"), "again"));
    let err = import_document(&mut store, "demo", payload).unwrap_err();
    assert!(matches!(err, ImportError::Store(_)));
    let nodes = store.list_nodes("demo");
    assert_eq!(nodes.len(), 1);
    assert_eq!(nodes[0].content, "placeholder");
    assert_eq!(store.head_revision("demo").as_deref(), Some("R000"));
}

#[test]
fn raw_nodes_resolve_kinds() {
    let n = raw_to_node(raw("x", "list-item", None, "c"));
    assert_eq!(n.kind, NodeKind::ListItem);
    assert_eq!(n.semantic_type, None);
    let g = raw_to_node(raw("y", "generic", None, "c"));
    assert_eq!(g.kind, NodeKind::Generic);
    assert_eq!(g.semantic_type, None);
    let mut r = raw("z", "x.custom", None, "c");
    r.semantic_type = Some("given".to_string());
    let z = raw_to_node(r);
    assert_eq!(z.kind, NodeKind::Generic);
    assert_eq!(z.semantic_type.as_deref(), Some("given"));
}

#[test]
fn revision_ids_bump() {
    assert_eq!(bump_revision_id("R000"), "R001");
    assert_eq!(bump_revision_id("R012"), "R013");
    assert_eq!(bump_revision_id("R999"), "R1000");
    assert_eq!(bump_revision_id("R+7"), "R008");
    assert_eq!(bump_revision_id("X12"), "R001");
    assert_eq!(bump_revision_id("R"), "R001");
    assert_eq!(parse_u32("4294967295"), Some(u32::MAX));
    assert_eq!(parse_u32("4294967296"), None);
    assert_eq!(parse_u32("+"), None);
    assert_eq!(parse_u32("-1"), None);
    assert_eq!(parse_u32("007"), Some(7));
}

#[test]
fn v01_manifest_deserializes_and_upgrades_without_losing_identity() {
    let mut manifest = Manifest {
        format: "aidoc".to_string(),
        version: "0.1".to_string(),
        document: ManifestDocument { id: "demo".to_string(), title: "Demo".to_string() },
        entry: "document/document.html".to_string(),
        storage: ManifestStorage { kind: "sqlite".to_string(), path: ".internal/document.db".to_string() },
        revision: ManifestRevision { current: "R009".to_string() },
        created_at: "2026-01-01T00:00:00Z".to_string(),
        updated_at: "2026-01-01T00:00:00Z".to_string(),
        schemas: vec![],
        representations: vec![],
        capabilities: vec![],
    };
    manifest.upgrade_to_v02();
    assert_eq!(manifest.document.id, "demo");
    assert_eq!(manifest.revision.current, "R009");
    assert_eq!(manifest.version, "0.2");
    assert_eq!(manifest.entry, "document/document.json");
    assert!(manifest.has_schema("operation"));
}

#[test]
fn read_info_reports_document_title() {
    let manifest = Manifest::new("doc-z", "My Title", "R000");
    assert_eq!(manifest.document.title, "My Title");
    assert_eq!(manifest.document.id, "doc-z");
    assert_eq!(manifest.revision.current, "R000");
}

#[test]
fn export_copy_inlines_packaged_image_without_mutating_package() {
    let mut image = make_node("image", NodeKind::Image, "assets/p.png");
    let files = vec![AssetFile { source: "assets/p.png".to_string(), extension: "png".to_string(), bytes: Some(b"foo".to_vec()) }];
    let mut nodes = vec![image.clone()];
    inline_image_assets(&mut nodes, &files).unwrap();
    image = nodes.remove(0);
    assert_eq!(image.content, "data:image/png;base64,Zm9v");
    assert_eq!(files[0].bytes, Some(b"foo".to_vec()));
}

#[test]
fn image_types_and_minimal_page() {
    assert_eq!(image_mime("PNG"), Some("image/png"));
    assert_eq!(image_mime("jpeg"), Some("image/jpeg"));
    assert_eq!(image_mime("txt"), None);
    let page = minimal_html("Hi");
    assert!(page.contains("<title>Hi</title>"));
}

#[test]
fn exporter_for_picks_the_exporter_of_the_format() {
    let doc = Document::new("d1", "Demo Title", NodeId::from_validated("root"));
    let input = ExportInput { doc: &doc, nodes: &[], relations: &[], branch: None };
    let html = exporter_for(ExportFormat::Html);
    assert!(matches!(html.format(), ExportFormat::Html));
    assert_eq!(html.export(&input), export_html(&doc, &[], None));
    let md = exporter_for(ExportFormat::Markdown);
    assert!(matches!(md.format(), ExportFormat::Markdown));
    assert_eq!(md.export(&input), export_markdown(&doc, &[]));
}

#[test]
fn saving_records_the_store_head_in_the_manifest() {
    let mut m = Manifest::new("d", "T", "R777");
    let empty = Store::open_memory();
    m.sync_with_store(&empty);
    assert_eq!(m.revision.current, "R777");
    let mut store = Store::open_memory();
    seed_root(&mut store, "d", "T").unwrap();
    seed_initial_revision(&mut store, "d", "seed").unwrap();
    m.sync_with_store(&store);
    assert_eq!(m.revision.current, "R000");
    assert_eq!(m.document.id, "d");
}

#[test]
fn image_assets_are_named_by_content_hash() {
    let a = image_asset("PNG", b"abc").unwrap();
    assert_eq!(a.path, "assets/sha256:ba7816bf8f01cfea414140de5dae2223b00361a396177a9cb410ff61f20015ad.png");
    assert_eq!(a.data_url, "data:image/png;base64,YWJj");
    assert_eq!(image_asset("txt", b"abc").unwrap_err(), "supported image types: png, jpg, gif, webp, svg, bmp");
}

#[test]
fn image_files_over_the_limit_are_refused() {
    assert!(check_image_file(true, 20 * 1024 * 1024).is_ok());
    assert_eq!(check_image_file(true, 20 * 1024 * 1024 + 1).unwrap_err(), "image must be a file no larger than 20 MiB");
    assert!(check_image_file(false, 1).is_err());
}

#[test]
fn asset_paths_stay_inside_assets() {
    assert!(valid_asset_path("assets/a.png"));
    assert!(!valid_asset_path("assets/../secret"));
    assert!(!valid_asset_path("/etc/passwd"));
    assert!(!valid_asset_path("asset"));
}

#[test]
fn smoke_open_in_memory() {
    let store = Store::open_memory();
    let n: usize = store.document_ids().iter().map(|d| store.list_nodes(d).len()).sum();
    assert_eq!(n, 0);
    assert!(store.list_nodes("any").is_empty());
}

#[test]
fn touching_the_manifest_stamps_a_utc_time() {
    let mut m = Manifest::new("d", "T", "R000");
    m.touch_updated();
    assert!(m.updated_at.ends_with("+00:00"));
    assert!(m.updated_at.contains('T'));
    assert_eq!(m.revision.current, "R000");
}

#[test]
fn export_format_from_str_matches_parse() {
    assert!(matches!(ExportFormat::from_str("markdown"), Ok(ExportFormat::Markdown)));
    assert!(matches!(ExportFormat::from_str("html"), Ok(ExportFormat::Html)));
    assert_eq!(ExportFormat::from_str("pdf").unwrap_err().0, "pdf");
}

#[test]
fn unsupported_extension_is_refused_before_a_missing_file() {
    let image = make_node("image", NodeKind::Image, "assets/p.tiff");
    let files = vec![AssetFile { source: "assets/p.tiff".to_string(), extension: "tiff".to_string(), bytes: None }];
    let mut nodes = vec![image];
    match inline_image_assets(&mut nodes, &files) {
        Err(AssetError::Unsupported(e)) => assert_eq!(e, "tiff"),
        _ => panic!("an unsupported extension comes first"),
    }
    let png = make_node("image", NodeKind::Image, "assets/p.png");
    let files = vec![AssetFile { source: "assets/p.png".to_string(), extension: "png".to_string(), bytes: None }];
    let mut nodes = vec![png];
    assert!(matches!(inline_image_assets(&mut nodes, &files), Err(AssetError::Missing(_))));
}
