use aidoc::conflict::{Conflict, ConflictKind};
use aidoc::export::ExportFormat;
use aidoc::id::{hex_encode, sha256_hex, NodeId, OpId, RevisionId};
use aidoc::model::{OperationType, RelationKind};
use aidoc::node::NodeKind;
use aidoc::package::base64;

fn field(c: &Conflict, key: &str) -> Option<String> {
    c.to_json()
        .into_iter()
        .find(|(k, _)| k == key)
        .map(|(_, v)| v)
}

#[test]
fn node_id_accepts_valid() {
    assert!(NodeId::new("database").is_ok());
    assert!(NodeId::new("order-service").is_ok());
    assert!(NodeId::new("REQ.001").is_ok());
}

#[test]
fn node_id_rejects_invalid() {
    assert!(NodeId::new("").is_err());
    assert!(NodeId::new("has space").is_err());
    assert!(NodeId::new("has/slash").is_err());
    assert!(NodeId::new("中文").is_err());
}

#[test]
fn sha256_format() {
    let h = sha256_hex(b"hello");
    assert!(h.starts_with("sha256:"));
    assert_eq!(h.len(), "sha256:".len() + 64);
}

#[test]
fn sha256_of_known_input() {
    assert_eq!(
        sha256_hex(b"hello"),
        "sha256:2cf24dba5fb0a30e26e83b2ac5b9e29e1b161e5c1fa7425e73043362938b9824"
    );
}

#[test]
fn base64_encoding_matches_rfc4648_examples() {
    assert_eq!(base64(b""), "");
    assert_eq!(base64(b"f"), "Zg==");
    assert_eq!(base64(b"fo"), "Zm8=");
    assert_eq!(base64(b"foo"), "Zm9v");
}

#[test]
fn base64_longer_rfc4648_examples() {
    assert_eq!(base64(b"foob"), "Zm9vYg==");
    assert_eq!(base64(b"fooba"), "Zm9vYmE=");
    assert_eq!(base64(b"foobar"), "Zm9vYmFy");
    assert_eq!(base64(&[0xff, 0xfe, 0x00]), "//4A");
}

#[test]
fn format_parses_aliases() {
    assert_eq!("html".parse::<ExportFormat>().unwrap(), ExportFormat::Html);
    assert_eq!("md".parse::<ExportFormat>().unwrap(), ExportFormat::Markdown);
    assert_eq!("markdown".parse::<ExportFormat>().unwrap(), ExportFormat::Markdown);
    assert!("pdf".parse::<ExportFormat>().is_err());
}

#[test]
fn format_name_round_trips() {
    for f in [ExportFormat::Html, ExportFormat::Markdown] {
        assert_eq!(ExportFormat::parse(f.as_str()).unwrap(), f);
    }
    let err = ExportFormat::parse("pdf").unwrap_err();
    assert_eq!(err.0, "pdf");
}

#[test]
fn revision_conflict_json_matches_spec_25() {
    let c = Conflict::revision("R103", "R104");
    assert_eq!(field(&c, "status").as_deref(), Some("conflict"));
    assert_eq!(field(&c, "kind").as_deref(), Some("REVISION_CONFLICT"));
    assert_eq!(field(&c, "expected_revision").as_deref(), Some("R103"));
    assert_eq!(field(&c, "actual_revision").as_deref(), Some("R104"));
}

#[test]
fn content_conflict_carries_hashes() {
    let c = Conflict::content("database", "sha256:aaa", "sha256:bbb");
    assert_eq!(field(&c, "kind").as_deref(), Some("CONTENT_CONFLICT"));
    assert_eq!(field(&c, "node").as_deref(), Some("database"));
    assert_eq!(field(&c, "expected_hash").as_deref(), Some("sha256:aaa"));
    assert_eq!(field(&c, "actual_hash").as_deref(), Some("sha256:bbb"));
}

#[test]
fn display_contains_conflict_case_insensitive() {
    for c in [
        Conflict::revision("R1", "R2"),
        Conflict::node("x"),
        Conflict::content("x", "a", "b"),
        Conflict::structure("x", "bad parent".to_string()),
        Conflict::relation("x", "dup link".to_string()),
    ] {
        let line = c.to_display();
        assert!(line.to_lowercase().contains("conflict"), "{line}");
    }
}

#[test]
fn node_conflict_fields_have_no_expectations() {
    let c = Conflict::node("ghost");
    let keys: Vec<String> = c.to_json().into_iter().map(|(k, _)| k).collect();
    assert_eq!(keys, vec!["status", "kind", "node", "detail"]);
    assert_eq!(c.kind, ConflictKind::Node);
}

#[test]
fn kind_names_round_trip() {
    let kinds = [
        NodeKind::Section,
        NodeKind::Paragraph,
        NodeKind::Heading,
        NodeKind::List,
        NodeKind::ListItem,
        NodeKind::Table,
        NodeKind::TableRow,
        NodeKind::TableCell,
        NodeKind::Code,
        NodeKind::Blockquote,
        NodeKind::Link,
        NodeKind::Image,
        NodeKind::Diagram,
        NodeKind::CodeRef,
        NodeKind::Requirement,
        NodeKind::Decision,
        NodeKind::Problem,
        NodeKind::Solution,
        NodeKind::Reference,
        NodeKind::Details,
        NodeKind::Summary,
        NodeKind::Generic,
    ];
    for k in kinds {
        assert_eq!(NodeKind::parse(k.as_str()), Some(k));
    }
    assert_eq!(NodeKind::parse("listitem"), None);
    assert_eq!(NodeKind::CodeRef.as_str(), "code-ref");
}

#[test]
fn relation_kind_names_round_trip() {
    assert_eq!(RelationKind::parse("depends-on"), RelationKind::DependsOn);
    assert_eq!(RelationKind::DependsOn.as_str(), "depends-on");
    assert_eq!(RelationKind::parse("no-such-kind"), RelationKind::Custom);
}

#[test]
fn operation_type_names() {
    assert_eq!(OperationType::Create.as_str(), "create");
    assert_eq!(OperationType::Branch.as_str(), "branch");
}

#[test]
fn revision_ids_are_zero_padded() {
    assert_eq!(RevisionId::from_sequence(0).as_str(), "R000");
    assert_eq!(RevisionId::from_sequence(7).as_str(), "R007");
    assert_eq!(RevisionId::from_sequence(1234).as_str(), "R1234");
    assert_eq!(OpId::new("OP-1").as_str(), "OP-1");
}

#[test]
fn hex_is_lowercase_two_digits_per_byte() {
    assert_eq!(hex_encode(&[0x0f, 0xa0, 0x00, 0xff]), "0fa000ff");
    assert_eq!(hex_encode(&[]), "");
}
