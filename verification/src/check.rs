//! Preconditions checked before an operation mutates anything: optimistic
//! concurrency against the head revision, then node, content, structure and
//! relation conflicts.

use vstd::prelude::*;
use crate::attrs::{attrs_get, entry_get};
use crate::conflict::{
    content_conflict, node_conflict, relation_conflict, revision_conflict, structure_conflict,
    Conflict, ConflictV,
};
use crate::engine::{make_relation_id, relation_id};
use crate::id::{NodeId, RevisionId};
use crate::model::{Operation, OperationType, OperationV};
use crate::store::{
    doc_tables, get_hash_spec, get_node_spec, has_node, has_relation, head_spec, DocTables,
    DocTablesV, Store,
};
use crate::text::{owned, str_eq};

verus! {

/// Why a precondition failed.
#[derive(Debug)]
pub enum CheckError {
    RevisionNotFound(String),
    Conflict(Conflict),
}

pub enum CheckErrorV {
    RevisionNotFound(Seq<char>),
    Conflict(ConflictV),
}

impl View for CheckError {
    type V = CheckErrorV;

    open spec fn view(&self) -> CheckErrorV {
        match self {
            CheckError::RevisionNotFound(m) => CheckErrorV::RevisionNotFound(m@),
            CheckError::Conflict(c) => CheckErrorV::Conflict(c@),
        }
    }
}

pub open spec fn check_error_text(e: CheckErrorV) -> Seq<char> {
    match e {
        CheckErrorV::RevisionNotFound(m) => "revision not found: "@ + m,
        CheckErrorV::Conflict(c) => c.detail + " ("@ + crate::conflict::conflict_kind_text(c.kind) + ")"@,
    }
}

impl CheckError {
    pub fn message(&self) -> (r: String)
        ensures
            r@ == check_error_text(self@),
    {
        match self {
            CheckError::RevisionNotFound(m) => {
                let mut s = owned("revision not found: ");
                s.append(m.as_str());
                s
            },
            CheckError::Conflict(c) => c.to_display(),
        }
    }
}

/// The head must exist and equal the operation's expected revision.
pub open spec fn check_revision_spec(t: DocTablesV, op: OperationV) -> Result<Seq<char>, CheckErrorV> {
    match head_spec(t) {
        None => Err(CheckErrorV::RevisionNotFound(op.expected_revision)),
        Some(h) => if h != op.expected_revision {
            Err(CheckErrorV::Conflict(revision_conflict(op.expected_revision, h)))
        } else {
            Ok(h)
        },
    }
}

/// Walking up the parent chain from `x` reaches `goal` within `fuel` steps.
pub open spec fn reaches(t: DocTablesV, x: Seq<char>, goal: Seq<char>, fuel: nat) -> bool
    decreases fuel,
{
    if x == goal {
        true
    } else if fuel == 0 {
        false
    } else {
        match get_node_spec(t, x) {
            Some(n) => match n.parent {
                Some(p) => reaches(t, p, goal, (fuel - 1) as nat),
                None => false,
            },
            None => false,
        }
    }
}

pub open spec fn self_parent_msg() -> Seq<char> {
    "a node cannot be its own parent"@
}

/// Node, content, structure and relation preconditions, in that order.
pub open spec fn check_conflict_spec(t: DocTablesV, op: OperationV) -> Result<(), ConflictV> {
    let needs_target = op.op_type != OperationType::Create && op.op_type != OperationType::Branch;
    if needs_target && op.target is Some && !has_node(t, op.target->0) {
        Err(node_conflict(op.target->0))
    } else if op.target is Some && op.expected_hash is Some && get_hash_spec(t, op.target->0) is Some
        && get_hash_spec(t, op.target->0)->0 != op.expected_hash->0 {
        Err(content_conflict(op.target->0, op.expected_hash->0, get_hash_spec(t, op.target->0)->0))
    } else if op.target is Some && op.patch is Some
        && entry_get(op.patch->0.attributes, "parent"@) is Some
        && entry_get(op.patch->0.attributes, "parent"@)->0.len() > 0 {
        let tg = op.target->0;
        let par = entry_get(op.patch->0.attributes, "parent"@)->0;
        if par == tg {
            Err(structure_conflict(tg, self_parent_msg()))
        } else if !has_node(t, par) {
            Err(structure_conflict(tg, "parent not found: "@ + par))
        } else if reaches(t, par, tg, t.nodes.len()) {
            Err(structure_conflict(tg, "move would create a cycle: "@ + par + " descends from "@ + tg))
        } else {
            relation_check(t, op)
        }
    } else {
        relation_check(t, op)
    }
}

/// Link must not duplicate a relation; unlink must find one.
pub open spec fn relation_check(t: DocTablesV, op: OperationV) -> Result<(), ConflictV> {
    if (op.op_type == OperationType::Link || op.op_type == OperationType::Unlink) && op.targets.len() > 0
        && op.target is Some {
        let src = op.targets[0];
        let rid = relation_id(src, op.target->0);
        if op.op_type == OperationType::Link && has_relation(t, rid) {
            Err(relation_conflict(src, "relation already exists: "@ + rid))
        } else if op.op_type == OperationType::Unlink && !has_relation(t, rid) {
            Err(relation_conflict(src, "relation not found: "@ + rid))
        } else {
            Ok(())
        }
    } else {
        Ok(())
    }
}

/// Both checks: the head revision when they pass.
pub open spec fn check_all_spec(t: DocTablesV, op: OperationV) -> Result<Seq<char>, CheckErrorV> {
    match check_revision_spec(t, op) {
        Err(e) => Err(e),
        Ok(h) => match check_conflict_spec(t, op) {
            Err(c) => Err(CheckErrorV::Conflict(c)),
            Ok(()) => Ok(h),
        },
    }
}

pub fn tables_check_revision(t: &DocTables, op: &Operation) -> (r: Result<RevisionId, CheckError>)
    ensures
        match check_revision_spec(t@, op@) {
            Ok(h) => r matches Ok(id) && id@ == h,
            Err(e) => r matches Err(e2) && e2@ == e,
        },
{
    match t.head_revision() {
        None => Err(CheckError::RevisionNotFound(owned(op.expected_revision.as_str()))),
        Some(h) => {
            if !str_eq(h.as_str(), op.expected_revision.as_str()) {
                Err(CheckError::Conflict(Conflict::revision(op.expected_revision.as_str(), h.as_str())))
            } else {
                Ok(RevisionId::from_string(h))
            }
        },
    }
}

fn reaches_exec(t: &DocTables, start: &str, goal: &str) -> (r: bool)
    ensures
        r == reaches(t@, start@, goal@, t@.nodes.len()),
{
    let mut x = owned(start);
    let mut fuel: usize = t.nodes.len();
    assert(t@.nodes.len() == t.nodes@.len());
    while fuel > 0
        invariant
            reaches(t@, start@, goal@, t@.nodes.len()) == reaches(t@, x@, goal@, fuel as nat),
        decreases fuel,
    {
        if str_eq(x.as_str(), goal) {
            return true;
        }
        match t.get_node(x.as_str()) {
            Some(n) => match n.parent {
                Some(p) => {
                    x = owned(p.as_str());
                },
                None => {
                    return false;
                },
            },
            None => {
                return false;
            },
        }
        fuel = fuel - 1;
    }
    str_eq(x.as_str(), goal)
}

pub fn tables_check_conflict(t: &DocTables, op: &Operation) -> (r: Result<(), Conflict>)
    ensures
        match check_conflict_spec(t@, op@) {
            Ok(()) => r is Ok,
            Err(c) => r matches Err(c2) && c2@ == c,
        },
{
    let needs_target = match op.op_type {
        OperationType::Create => false,
        OperationType::Branch => false,
        _ => true,
    };
    if let Some(tg) = &op.target {
        if needs_target && t.find_node(tg.as_str()).is_none() {
            return Err(Conflict::node(tg.as_str()));
        }
        if let Some(e) = &op.expected_hash {
            if let Some(h) = t.get_content_hash(tg.as_str()) {
                if !str_eq(h.as_str(), e.as_str()) {
                    return Err(Conflict::content(tg.as_str(), e.as_str(), h.as_str()));
                }
            }
        }
        if let Some(p) = &op.patch {
            if let Some(par) = attrs_get(&p.attributes, "parent") {
                if par.as_str().unicode_len() > 0 {
                    if str_eq(par.as_str(), tg.as_str()) {
                        return Err(Conflict::structure(tg.as_str(), owned("a node cannot be its own parent")));
                    }
                    if t.find_node(par.as_str()).is_none() {
                        let mut d = owned("parent not found: ");
                        d.append(par.as_str());
                        return Err(Conflict::structure(tg.as_str(), d));
                    }
                    if reaches_exec(t, par.as_str(), tg.as_str()) {
                        let mut d = owned("move would create a cycle: ");
                        d.append(par.as_str());
                        d.append(" descends from ");
                        d.append(tg.as_str());
                        return Err(Conflict::structure(tg.as_str(), d));
                    }
                }
            }
        }
    }
    tables_relation_check(t, op)
}

fn tables_relation_check(t: &DocTables, op: &Operation) -> (r: Result<(), Conflict>)
    ensures
        match relation_check(t@, op@) {
            Ok(()) => r is Ok,
            Err(c) => r matches Err(c2) && c2@ == c,
        },
{
    let is_link = match op.op_type {
        OperationType::Link => true,
        _ => false,
    };
    let is_unlink = match op.op_type {
        OperationType::Unlink => true,
        _ => false,
    };
    if (is_link || is_unlink) && op.targets.len() > 0 {
        if let Some(dst) = &op.target {
            let src = &op.targets[0];
            let rid = make_relation_id(src, dst);
            let exists = t.find_relation(rid.as_str()).is_some();
            if is_link && exists {
                let mut d = owned("relation already exists: ");
                d.append(rid.as_str());
                return Err(Conflict::relation(src.as_str(), d));
            }
            if is_unlink && !exists {
                let mut d = owned("relation not found: ");
                d.append(rid.as_str());
                return Err(Conflict::relation(src.as_str(), d));
            }
        }
    }
    Ok(())
}

pub fn tables_check_all(t: &DocTables, op: &Operation) -> (r: Result<RevisionId, CheckError>)
    ensures
        match check_all_spec(t@, op@) {
            Ok(h) => r matches Ok(id) && id@ == h,
            Err(e) => r matches Err(e2) && e2@ == e,
        },
{
    let head = tables_check_revision(t, op)?;
    match tables_check_conflict(t, op) {
        Ok(()) => Ok(head),
        Err(c) => Err(CheckError::Conflict(c)),
    }
}

/// The head of a document that is not stored is missing.
pub open spec fn doc_check_all_spec(s: Seq<DocTablesV>, doc_id: Seq<char>, op: OperationV) -> Result<Seq<char>, CheckErrorV> {
    match doc_tables(s, doc_id) {
        None => Err(CheckErrorV::RevisionNotFound(op.expected_revision)),
        Some(t) => check_all_spec(t, op),
    }
}

/// Verify `op.expected_revision` equals the current head.
pub fn check_revision(store: &Store, doc_id: &str, op: &Operation) -> (r: Result<RevisionId, CheckError>)
    ensures
        match doc_tables(store@, doc_id@) {
            None => r matches Err(e) && e@ == CheckErrorV::RevisionNotFound(op@.expected_revision),
            Some(t) => match check_revision_spec(t, op@) {
                Ok(h) => r matches Ok(id) && id@ == h,
                Err(e) => r matches Err(e2) && e2@ == e,
            },
        },
{
    match store.tables(doc_id) {
        None => Err(CheckError::RevisionNotFound(owned(op.expected_revision.as_str()))),
        Some(t) => tables_check_revision(t, op),
    }
}

/// Verify the node-level preconditions of `op`.
pub fn check_conflict(store: &Store, doc_id: &str, op: &Operation) -> (r: Result<(), CheckError>)
    ensures
        match doc_tables(store@, doc_id@) {
            None => r is Ok,
            Some(t) => match check_conflict_spec(t, op@) {
                Ok(()) => r is Ok,
                Err(c) => r matches Err(e) && e@ == CheckErrorV::Conflict(c),
            },
        },
{
    match store.tables(doc_id) {
        None => Ok(()),
        Some(t) => match tables_check_conflict(t, op) {
            Ok(()) => Ok(()),
            Err(c) => Err(CheckError::Conflict(c)),
        },
    }
}

/// Both checks; the head revision when they pass.
pub fn check_all(store: &Store, doc_id: &str, op: &Operation) -> (r: Result<RevisionId, CheckError>)
    ensures
        match doc_check_all_spec(store@, doc_id@, op@) {
            Ok(h) => r matches Ok(id) && id@ == h,
            Err(e) => r matches Err(e2) && e2@ == e,
        },
{
    match store.tables(doc_id) {
        None => Err(CheckError::RevisionNotFound(owned(op.expected_revision.as_str()))),
        Some(t) => tables_check_all(t, op),
    }
}

} // verus!
