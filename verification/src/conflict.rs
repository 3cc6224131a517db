//! Structured conflict records: the five conflict classes an operation can hit.

use vstd::prelude::*;
use crate::node::clone_opt_string;
use crate::text::{opt_str_view, owned};

verus! {

/// The five conflict classes.
#[derive(Debug, Clone, Copy, PartialEq, Eq, Hash, Structural)]
pub enum ConflictKind {
    /// Target node is missing.
    Node,
    /// Stored content hash differs from the expected one.
    Content,
    /// Structural precondition violated (missing parent, cycle).
    Structure,
    /// Relation precondition violated (duplicate link, absent unlink).
    Relation,
    /// Expected revision differs from the head.
    Revision,
}

pub open spec fn conflict_kind_text(k: ConflictKind) -> Seq<char> {
    match k {
        ConflictKind::Node => "NODE_CONFLICT"@,
        ConflictKind::Content => "CONTENT_CONFLICT"@,
        ConflictKind::Structure => "STRUCTURE_CONFLICT"@,
        ConflictKind::Relation => "RELATION_CONFLICT"@,
        ConflictKind::Revision => "REVISION_CONFLICT"@,
    }
}

impl ConflictKind {
    /// Wire code, e.g. `CONTENT_CONFLICT`.
    pub fn as_str(&self) -> (r: &'static str)
        ensures
            r@ == conflict_kind_text(*self),
    {
        match self {
            ConflictKind::Node => "NODE_CONFLICT",
            ConflictKind::Content => "CONTENT_CONFLICT",
            ConflictKind::Structure => "STRUCTURE_CONFLICT",
            ConflictKind::Relation => "RELATION_CONFLICT",
            ConflictKind::Revision => "REVISION_CONFLICT",
        }
    }
}

pub struct ConflictV {
    pub kind: ConflictKind,
    pub node: Option<Seq<char>>,
    pub expected: Option<Seq<char>>,
    pub actual: Option<Seq<char>>,
    pub detail: Seq<char>,
}

/// A structured conflict record.
#[derive(Debug)]
pub struct Conflict {
    pub kind: ConflictKind,
    pub node: Option<String>,
    pub expected: Option<String>,
    pub actual: Option<String>,
    pub detail: String,
}

impl View for Conflict {
    type V = ConflictV;

    open spec fn view(&self) -> ConflictV {
        ConflictV {
            kind: self.kind,
            node: opt_str_view(self.node),
            expected: opt_str_view(self.expected),
            actual: opt_str_view(self.actual),
            detail: self.detail@,
        }
    }
}

impl Clone for Conflict {
    fn clone(&self) -> (r: Self)
        ensures
            r@ == self@,
    {
        Conflict {
            kind: self.kind,
            node: clone_opt_string(&self.node),
            expected: clone_opt_string(&self.expected),
            actual: clone_opt_string(&self.actual),
            detail: self.detail.clone(),
        }
    }
}

pub open spec fn revision_conflict(e: Seq<char>, a: Seq<char>) -> ConflictV {
    ConflictV {
        kind: ConflictKind::Revision,
        node: None,
        expected: Some(e),
        actual: Some(a),
        detail: "revision conflict: expected="@ + e + ", actual="@ + a,
    }
}

pub open spec fn node_conflict(n: Seq<char>) -> ConflictV {
    ConflictV {
        kind: ConflictKind::Node,
        node: Some(n),
        expected: None,
        actual: None,
        detail: "node conflict: target '"@ + n + "' not found"@,
    }
}

pub open spec fn content_conflict(n: Seq<char>, e: Seq<char>, a: Seq<char>) -> ConflictV {
    ConflictV {
        kind: ConflictKind::Content,
        node: Some(n),
        expected: Some(e),
        actual: Some(a),
        detail: "content conflict on '"@ + n + "': expected="@ + e + ", actual="@ + a,
    }
}

pub open spec fn structure_conflict(n: Seq<char>, d: Seq<char>) -> ConflictV {
    ConflictV { kind: ConflictKind::Structure, node: Some(n), expected: None, actual: None, detail: d }
}

pub open spec fn relation_conflict(n: Seq<char>, d: Seq<char>) -> ConflictV {
    ConflictV { kind: ConflictKind::Relation, node: Some(n), expected: None, actual: None, detail: d }
}

/// The machine-readable fields of a conflict, in order.
pub open spec fn conflict_fields(c: ConflictV) -> Seq<(Seq<char>, Seq<char>)> {
    let head = seq![("status"@, "conflict"@), ("kind"@, conflict_kind_text(c.kind))];
    let with_node = match c.node {
        Some(n) => head.push(("node"@, n)),
        None => head,
    };
    let (ek, ak) = match c.kind {
        ConflictKind::Revision => ("expected_revision"@, "actual_revision"@),
        _ => ("expected_hash"@, "actual_hash"@),
    };
    let typed = c.kind == ConflictKind::Revision || c.kind == ConflictKind::Content;
    let with_e = match c.expected {
        Some(e) if typed => with_node.push((ek, e)),
        _ => with_node,
    };
    let with_a = match c.actual {
        Some(a) if typed => with_e.push((ak, a)),
        _ => with_e,
    };
    with_a.push(("detail"@, c.detail))
}

pub fn cat2(a: &str, b: &str) -> (r: String)
    ensures
        r@ == a@ + b@,
{
    let mut s = owned(a);
    s.append(b);
    s
}

impl Conflict {
    /// A conflict with just a kind and a detail.
    pub fn new(kind: ConflictKind, detail: String) -> (r: Conflict)
        ensures
            r@ == (ConflictV { kind, node: None, expected: None, actual: None, detail: detail@ }),
    {
        Conflict { kind, node: None, expected: None, actual: None, detail }
    }

    /// Optimistic-concurrency conflict.
    pub fn revision(expected: &str, actual: &str) -> (r: Conflict)
        ensures
            r@ == revision_conflict(expected@, actual@),
    {
        let mut d = owned("revision conflict: expected=");
        d.append(expected);
        d.append(", actual=");
        d.append(actual);
        Conflict {
            kind: ConflictKind::Revision,
            node: None,
            expected: Some(owned(expected)),
            actual: Some(owned(actual)),
            detail: d,
        }
    }

    /// Target node does not exist.
    pub fn node(node: &str) -> (r: Conflict)
        ensures
            r@ == node_conflict(node@),
    {
        let mut d = owned("node conflict: target '");
        d.append(node);
        d.append("' not found");
        Conflict { kind: ConflictKind::Node, node: Some(owned(node)), expected: None, actual: None, detail: d }
    }

    /// Content-hash mismatch.
    pub fn content(node: &str, expected: &str, actual: &str) -> (r: Conflict)
        ensures
            r@ == content_conflict(node@, expected@, actual@),
    {
        let mut d = owned("content conflict on '");
        d.append(node);
        d.append("': expected=");
        d.append(expected);
        d.append(", actual=");
        d.append(actual);
        Conflict {
            kind: ConflictKind::Content,
            node: Some(owned(node)),
            expected: Some(owned(expected)),
            actual: Some(owned(actual)),
            detail: d,
        }
    }

    /// Structural precondition violated.
    pub fn structure(node: &str, detail: String) -> (r: Conflict)
        ensures
            r@ == structure_conflict(node@, detail@),
    {
        Conflict { kind: ConflictKind::Structure, node: Some(owned(node)), expected: None, actual: None, detail }
    }

    /// Relation precondition violated.
    pub fn relation(node: &str, detail: String) -> (r: Conflict)
        ensures
            r@ == relation_conflict(node@, detail@),
    {
        Conflict { kind: ConflictKind::Relation, node: Some(owned(node)), expected: None, actual: None, detail }
    }

    /// One human line: `{detail} ({KIND})`; it always holds the word `CONFLICT`.
    pub fn to_display(&self) -> (r: String)
        ensures
            r@ == self.detail@ + " ("@ + conflict_kind_text(self.kind) + ")"@,
    {
        let mut s = self.detail.clone();
        s.append(" (");
        s.append(self.kind.as_str());
        s.append(")");
        s
    }

    /// The machine-readable JSON object, as its ordered (key, string value) members:
    /// status, kind, node, the expected/actual pair of a revision or content
    /// conflict, and detail.
    pub fn to_json(&self) -> (r: Vec<(String, String)>)
        ensures
            r.deep_view() == conflict_fields(self@),
    {
        let mut out: Vec<(String, String)> = Vec::new();
        out.push((owned("status"), owned("conflict")));
        out.push((owned("kind"), owned(self.kind.as_str())));
        match &self.node {
            Some(n) => out.push((owned("node"), n.clone())),
            None => {},
        }
        let typed = match self.kind {
            ConflictKind::Revision => true,
            ConflictKind::Content => true,
            _ => false,
        };
        let (ek, ak) = match self.kind {
            ConflictKind::Revision => ("expected_revision", "actual_revision"),
            _ => ("expected_hash", "actual_hash"),
        };
        if typed {
            match &self.expected {
                Some(e) => out.push((owned(ek), e.clone())),
                None => {},
            }
            match &self.actual {
                Some(a) => out.push((owned(ak), a.clone())),
                None => {},
            }
        }
        out.push((owned("detail"), self.detail.clone()));
        assert(out.deep_view() =~= conflict_fields(self@));
        out
    }
}

} // verus!
