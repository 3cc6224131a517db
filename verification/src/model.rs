//! Operations, relations, revisions and changes.

use vstd::prelude::*;
use crate::attrs::{attr_entries, attrs_clone, attrs_new, AttrMap, Entries};
use crate::id::{NodeId, OpId, RevisionId};
use crate::node::{NodeKind, opt_id_view};
use crate::text::{opt_str_view, owned, str_eq};

verus! {

/// The operation types an operation can carry.
#[derive(Debug, Clone, Copy, PartialEq, Eq, Hash, Structural)]
pub enum OperationType {
    Create,
    Update,
    Delete,
    Move,
    Rename,
    Replace,
    Link,
    Unlink,
    Split,
    Merge,
    Revert,
    Branch,
}

pub open spec fn op_type_text(k: OperationType) -> Seq<char> {
    match k {
        OperationType::Create => "create"@,
        OperationType::Update => "update"@,
        OperationType::Delete => "delete"@,
        OperationType::Move => "move"@,
        OperationType::Rename => "rename"@,
        OperationType::Replace => "replace"@,
        OperationType::Link => "link"@,
        OperationType::Unlink => "unlink"@,
        OperationType::Split => "split"@,
        OperationType::Merge => "merge"@,
        OperationType::Revert => "revert"@,
        OperationType::Branch => "branch"@,
    }
}

pub open spec fn op_type_from_text(s: Seq<char>) -> Option<OperationType> {
    if s == "create"@ {
        Some(OperationType::Create)
    } else if s == "update"@ {
        Some(OperationType::Update)
    } else if s == "delete"@ {
        Some(OperationType::Delete)
    } else if s == "move"@ {
        Some(OperationType::Move)
    } else if s == "rename"@ {
        Some(OperationType::Rename)
    } else if s == "replace"@ {
        Some(OperationType::Replace)
    } else if s == "link"@ {
        Some(OperationType::Link)
    } else if s == "unlink"@ {
        Some(OperationType::Unlink)
    } else if s == "split"@ {
        Some(OperationType::Split)
    } else if s == "merge"@ {
        Some(OperationType::Merge)
    } else if s == "revert"@ {
        Some(OperationType::Revert)
    } else if s == "branch"@ {
        Some(OperationType::Branch)
    } else {
        None
    }
}

impl OperationType {
    /// The kebab-case name.
    pub fn as_str(&self) -> (r: &'static str)
        ensures
            r@ == op_type_text(*self),
    {
        match self {
            OperationType::Create => "create",
            OperationType::Update => "update",
            OperationType::Delete => "delete",
            OperationType::Move => "move",
            OperationType::Rename => "rename",
            OperationType::Replace => "replace",
            OperationType::Link => "link",
            OperationType::Unlink => "unlink",
            OperationType::Split => "split",
            OperationType::Merge => "merge",
            OperationType::Revert => "revert",
            OperationType::Branch => "branch",
        }
    }
    /// The type named `s`, if any.
    pub fn parse(s: &str) -> (r: Option<OperationType>)
        ensures
            r == op_type_from_text(s@),
    {
        if str_eq(s, "create") {
            Some(OperationType::Create)
        } else if str_eq(s, "update") {
            Some(OperationType::Update)
        } else if str_eq(s, "delete") {
            Some(OperationType::Delete)
        } else if str_eq(s, "move") {
            Some(OperationType::Move)
        } else if str_eq(s, "rename") {
            Some(OperationType::Rename)
        } else if str_eq(s, "replace") {
            Some(OperationType::Replace)
        } else if str_eq(s, "link") {
            Some(OperationType::Link)
        } else if str_eq(s, "unlink") {
            Some(OperationType::Unlink)
        } else if str_eq(s, "split") {
            Some(OperationType::Split)
        } else if str_eq(s, "merge") {
            Some(OperationType::Merge)
        } else if str_eq(s, "revert") {
            Some(OperationType::Revert)
        } else if str_eq(s, "branch") {
            Some(OperationType::Branch)
        } else {
            None
        }
    }
}

/// Every operation type's name parses back to that type.
pub proof fn law_operation_type_name_roundtrip(k: OperationType)
    ensures
        op_type_from_text(op_type_text(k)) == Some(k),
{
    reveal_strlit("create");
    reveal_strlit("update");
    reveal_strlit("delete");
    reveal_strlit("move");
    reveal_strlit("rename");
    reveal_strlit("replace");
    reveal_strlit("link");
    reveal_strlit("unlink");
    reveal_strlit("split");
    reveal_strlit("merge");
    reveal_strlit("revert");
    reveal_strlit("branch");
    match k {
        OperationType::Create => {
            assert(op_type_from_text("create"@) == Some(OperationType::Create));
        },
        OperationType::Update => {
            assert(("update"@)[0] != ("create"@)[0]);
            assert(op_type_from_text("update"@) == Some(OperationType::Update));
        },
        OperationType::Delete => {
            assert(("delete"@)[0] != ("create"@)[0]);
            assert(("delete"@)[0] != ("update"@)[0]);
            assert(op_type_from_text("delete"@) == Some(OperationType::Delete));
        },
        OperationType::Move => {
            assert(("move"@).len() != ("create"@).len());
            assert(("move"@).len() != ("update"@).len());
            assert(("move"@).len() != ("delete"@).len());
            assert(op_type_from_text("move"@) == Some(OperationType::Move));
        },
        OperationType::Rename => {
            assert(("rename"@)[0] != ("create"@)[0]);
            assert(("rename"@)[0] != ("update"@)[0]);
            assert(("rename"@)[0] != ("delete"@)[0]);
            assert(("rename"@).len() != ("move"@).len());
            assert(op_type_from_text("rename"@) == Some(OperationType::Rename));
        },
        OperationType::Replace => {
            assert(("replace"@).len() != ("create"@).len());
            assert(("replace"@).len() != ("update"@).len());
            assert(("replace"@).len() != ("delete"@).len());
            assert(("replace"@).len() != ("move"@).len());
            assert(("replace"@).len() != ("rename"@).len());
            assert(op_type_from_text("replace"@) == Some(OperationType::Replace));
        },
        OperationType::Link => {
            assert(("link"@).len() != ("create"@).len());
            assert(("link"@).len() != ("update"@).len());
            assert(("link"@).len() != ("delete"@).len());
            assert(("link"@)[0] != ("move"@)[0]);
            assert(("link"@).len() != ("rename"@).len());
            assert(("link"@).len() != ("replace"@).len());
            assert(op_type_from_text("link"@) == Some(OperationType::Link));
        },
        OperationType::Unlink => {
            assert(("unlink"@)[0] != ("create"@)[0]);
            assert(("unlink"@)[1] != ("update"@)[1]);
            assert(("unlink"@)[0] != ("delete"@)[0]);
            assert(("unlink"@).len() != ("move"@).len());
            assert(("unlink"@)[0] != ("rename"@)[0]);
            assert(("unlink"@).len() != ("replace"@).len());
            assert(("unlink"@).len() != ("link"@).len());
            assert(op_type_from_text("unlink"@) == Some(OperationType::Unlink));
        },
        OperationType::Split => {
            assert(("split"@).len() != ("create"@).len());
            assert(("split"@).len() != ("update"@).len());
            assert(("split"@).len() != ("delete"@).len());
            assert(("split"@).len() != ("move"@).len());
            assert(("split"@).len() != ("rename"@).len());
            assert(("split"@).len() != ("replace"@).len());
            assert(("split"@).len() != ("link"@).len());
            assert(("split"@).len() != ("unlink"@).len());
            assert(op_type_from_text("split"@) == Some(OperationType::Split));
        },
        OperationType::Merge => {
            assert(("merge"@).len() != ("create"@).len());
            assert(("merge"@).len() != ("update"@).len());
            assert(("merge"@).len() != ("delete"@).len());
            assert(("merge"@).len() != ("move"@).len());
            assert(("merge"@).len() != ("rename"@).len());
            assert(("merge"@).len() != ("replace"@).len());
            assert(("merge"@).len() != ("link"@).len());
            assert(("merge"@).len() != ("unlink"@).len());
            assert(("merge"@)[0] != ("split"@)[0]);
            assert(op_type_from_text("merge"@) == Some(OperationType::Merge));
        },
        OperationType::Revert => {
            assert(("revert"@)[0] != ("create"@)[0]);
            assert(("revert"@)[0] != ("update"@)[0]);
            assert(("revert"@)[0] != ("delete"@)[0]);
            assert(("revert"@).len() != ("move"@).len());
            assert(("revert"@)[2] != ("rename"@)[2]);
            assert(("revert"@).len() != ("replace"@).len());
            assert(("revert"@).len() != ("link"@).len());
            assert(("revert"@)[0] != ("unlink"@)[0]);
            assert(("revert"@).len() != ("split"@).len());
            assert(("revert"@).len() != ("merge"@).len());
            assert(op_type_from_text("revert"@) == Some(OperationType::Revert));
        },
        OperationType::Branch => {
            assert(("branch"@)[0] != ("create"@)[0]);
            assert(("branch"@)[0] != ("update"@)[0]);
            assert(("branch"@)[0] != ("delete"@)[0]);
            assert(("branch"@).len() != ("move"@).len());
            assert(("branch"@)[0] != ("rename"@)[0]);
            assert(("branch"@).len() != ("replace"@).len());
            assert(("branch"@).len() != ("link"@).len());
            assert(("branch"@)[0] != ("unlink"@)[0]);
            assert(("branch"@).len() != ("split"@).len());
            assert(("branch"@).len() != ("merge"@).len());
            assert(("branch"@)[0] != ("revert"@)[0]);
            assert(op_type_from_text("branch"@) == Some(OperationType::Branch));
        },
    }
}

/// Semantic relation kinds.
#[derive(Debug, Clone, Copy, PartialEq, Eq, Hash, Structural)]
pub enum RelationKind {
    References,
    RelatedTo,
    DependsOn,
    Implements,
    ImplementedBy,
    DerivedFrom,
    Supersedes,
    TestedBy,
    Documents,
    DocumentsCode,
    Custom,
}

pub open spec fn relation_kind_text(k: RelationKind) -> Seq<char> {
    match k {
        RelationKind::References => "references"@,
        RelationKind::RelatedTo => "related-to"@,
        RelationKind::DependsOn => "depends-on"@,
        RelationKind::Implements => "implements"@,
        RelationKind::ImplementedBy => "implemented-by"@,
        RelationKind::DerivedFrom => "derived-from"@,
        RelationKind::Supersedes => "supersedes"@,
        RelationKind::TestedBy => "tested-by"@,
        RelationKind::Documents => "documents"@,
        RelationKind::DocumentsCode => "documents-code"@,
        RelationKind::Custom => "custom"@,
    }
}

pub open spec fn relation_kind_from_text(s: Seq<char>) -> RelationKind {
    if s == "references"@ {
        RelationKind::References
    } else if s == "related-to"@ {
        RelationKind::RelatedTo
    } else if s == "depends-on"@ {
        RelationKind::DependsOn
    } else if s == "implements"@ {
        RelationKind::Implements
    } else if s == "implemented-by"@ {
        RelationKind::ImplementedBy
    } else if s == "derived-from"@ {
        RelationKind::DerivedFrom
    } else if s == "supersedes"@ {
        RelationKind::Supersedes
    } else if s == "tested-by"@ {
        RelationKind::TestedBy
    } else if s == "documents"@ {
        RelationKind::Documents
    } else if s == "documents-code"@ {
        RelationKind::DocumentsCode
    } else {
        RelationKind::Custom
    }
}

impl RelationKind {
    /// The kind named `s`; any other name is `Custom`.
    pub fn parse(s: &str) -> (r: RelationKind)
        ensures
            r == relation_kind_from_text(s@),
    {
        if str_eq(s, "references") {
            RelationKind::References
        } else if str_eq(s, "related-to") {
            RelationKind::RelatedTo
        } else if str_eq(s, "depends-on") {
            RelationKind::DependsOn
        } else if str_eq(s, "implements") {
            RelationKind::Implements
        } else if str_eq(s, "implemented-by") {
            RelationKind::ImplementedBy
        } else if str_eq(s, "derived-from") {
            RelationKind::DerivedFrom
        } else if str_eq(s, "supersedes") {
            RelationKind::Supersedes
        } else if str_eq(s, "tested-by") {
            RelationKind::TestedBy
        } else if str_eq(s, "documents") {
            RelationKind::Documents
        } else if str_eq(s, "documents-code") {
            RelationKind::DocumentsCode
        } else {
            RelationKind::Custom
        }
    }
    /// The kebab-case name.
    pub fn as_str(&self) -> (r: &'static str)
        ensures
            r@ == relation_kind_text(*self),
    {
        match self {
            RelationKind::References => "references",
            RelationKind::RelatedTo => "related-to",
            RelationKind::DependsOn => "depends-on",
            RelationKind::Implements => "implements",
            RelationKind::ImplementedBy => "implemented-by",
            RelationKind::DerivedFrom => "derived-from",
            RelationKind::Supersedes => "supersedes",
            RelationKind::TestedBy => "tested-by",
            RelationKind::Documents => "documents",
            RelationKind::DocumentsCode => "documents-code",
            RelationKind::Custom => "custom",
        }
    }
}

/// Every relation kind's name parses back to that kind.
pub proof fn law_relation_kind_name_roundtrip(k: RelationKind)
    ensures
        relation_kind_from_text(relation_kind_text(k)) == k,
{
    reveal_strlit("references");
    reveal_strlit("related-to");
    reveal_strlit("depends-on");
    reveal_strlit("implements");
    reveal_strlit("implemented-by");
    reveal_strlit("derived-from");
    reveal_strlit("supersedes");
    reveal_strlit("tested-by");
    reveal_strlit("documents");
    reveal_strlit("documents-code");
    reveal_strlit("custom");
    match k {
        RelationKind::References => {
            assert(relation_kind_from_text("references"@) == RelationKind::References);
        },
        RelationKind::RelatedTo => {
            assert(("related-to"@)[2] != ("references"@)[2]);
            assert(relation_kind_from_text("related-to"@) == RelationKind::RelatedTo);
        },
        RelationKind::DependsOn => {
            assert(("depends-on"@)[0] != ("references"@)[0]);
            assert(("depends-on"@)[0] != ("related-to"@)[0]);
            assert(relation_kind_from_text("depends-on"@) == RelationKind::DependsOn);
        },
        RelationKind::Implements => {
            assert(("implements"@)[0] != ("references"@)[0]);
            assert(("implements"@)[0] != ("related-to"@)[0]);
            assert(("implements"@)[0] != ("depends-on"@)[0]);
            assert(relation_kind_from_text("implements"@) == RelationKind::Implements);
        },
        RelationKind::ImplementedBy => {
            assert(("implemented-by"@).len() != ("references"@).len());
            assert(("implemented-by"@).len() != ("related-to"@).len());
            assert(("implemented-by"@).len() != ("depends-on"@).len());
            assert(("implemented-by"@).len() != ("implements"@).len());
            assert(relation_kind_from_text("implemented-by"@) == RelationKind::ImplementedBy);
        },
        RelationKind::DerivedFrom => {
            assert(("derived-from"@).len() != ("references"@).len());
            assert(("derived-from"@).len() != ("related-to"@).len());
            assert(("derived-from"@).len() != ("depends-on"@).len());
            assert(("derived-from"@).len() != ("implements"@).len());
            assert(("derived-from"@).len() != ("implemented-by"@).len());
            assert(relation_kind_from_text("derived-from"@) == RelationKind::DerivedFrom);
        },
        RelationKind::Supersedes => {
            assert(("supersedes"@)[0] != ("references"@)[0]);
            assert(("supersedes"@)[0] != ("related-to"@)[0]);
            assert(("supersedes"@)[0] != ("depends-on"@)[0]);
            assert(("supersedes"@)[0] != ("implements"@)[0]);
            assert(("supersedes"@).len() != ("implemented-by"@).len());
            assert(("supersedes"@).len() != ("derived-from"@).len());
            assert(relation_kind_from_text("supersedes"@) == RelationKind::Supersedes);
        },
        RelationKind::TestedBy => {
            assert(("tested-by"@).len() != ("references"@).len());
            assert(("tested-by"@).len() != ("related-to"@).len());
            assert(("tested-by"@).len() != ("depends-on"@).len());
            assert(("tested-by"@).len() != ("implements"@).len());
            assert(("tested-by"@).len() != ("implemented-by"@).len());
            assert(("tested-by"@).len() != ("derived-from"@).len());
            assert(("tested-by"@).len() != ("supersedes"@).len());
            assert(relation_kind_from_text("tested-by"@) == RelationKind::TestedBy);
        },
        RelationKind::Documents => {
            assert(("documents"@).len() != ("references"@).len());
            assert(("documents"@).len() != ("related-to"@).len());
            assert(("documents"@).len() != ("depends-on"@).len());
            assert(("documents"@).len() != ("implements"@).len());
            assert(("documents"@).len() != ("implemented-by"@).len());
            assert(("documents"@).len() != ("derived-from"@).len());
            assert(("documents"@).len() != ("supersedes"@).len());
            assert(("documents"@)[0] != ("tested-by"@)[0]);
            assert(relation_kind_from_text("documents"@) == RelationKind::Documents);
        },
        RelationKind::DocumentsCode => {
            assert(("documents-code"@).len() != ("references"@).len());
            assert(("documents-code"@).len() != ("related-to"@).len());
            assert(("documents-code"@).len() != ("depends-on"@).len());
            assert(("documents-code"@).len() != ("implements"@).len());
            assert(("documents-code"@)[0] != ("implemented-by"@)[0]);
            assert(("documents-code"@).len() != ("derived-from"@).len());
            assert(("documents-code"@).len() != ("supersedes"@).len());
            assert(("documents-code"@).len() != ("tested-by"@).len());
            assert(("documents-code"@).len() != ("documents"@).len());
            assert(relation_kind_from_text("documents-code"@) == RelationKind::DocumentsCode);
        },
        RelationKind::Custom => {
            assert(("custom"@).len() != ("references"@).len());
            assert(("custom"@).len() != ("related-to"@).len());
            assert(("custom"@).len() != ("depends-on"@).len());
            assert(("custom"@).len() != ("implements"@).len());
            assert(("custom"@).len() != ("implemented-by"@).len());
            assert(("custom"@).len() != ("derived-from"@).len());
            assert(("custom"@).len() != ("supersedes"@).len());
            assert(("custom"@).len() != ("tested-by"@).len());
            assert(("custom"@).len() != ("documents"@).len());
            assert(("custom"@).len() != ("documents-code"@).len());
            assert(relation_kind_from_text("custom"@) == RelationKind::Custom);
        },
    }
}

/// What happened to a node in one revision.
#[derive(Debug, Clone, Copy, PartialEq, Eq, Hash, Structural)]
pub enum ChangeType {
    ContentUpdate,
    Create,
    Delete,
    Move,
    Rename,
    Split,
    Merge,
    Revert,
    RelationAdd,
    RelationRemove,
}

pub open spec fn change_type_text(k: ChangeType) -> Seq<char> {
    match k {
        ChangeType::ContentUpdate => "content-update"@,
        ChangeType::Create => "create"@,
        ChangeType::Delete => "delete"@,
        ChangeType::Move => "move"@,
        ChangeType::Rename => "rename"@,
        ChangeType::Split => "split"@,
        ChangeType::Merge => "merge"@,
        ChangeType::Revert => "revert"@,
        ChangeType::RelationAdd => "relation-add"@,
        ChangeType::RelationRemove => "relation-remove"@,
    }
}

pub open spec fn change_type_from_text(s: Seq<char>) -> Option<ChangeType> {
    if s == "content-update"@ {
        Some(ChangeType::ContentUpdate)
    } else if s == "create"@ {
        Some(ChangeType::Create)
    } else if s == "delete"@ {
        Some(ChangeType::Delete)
    } else if s == "move"@ {
        Some(ChangeType::Move)
    } else if s == "rename"@ {
        Some(ChangeType::Rename)
    } else if s == "split"@ {
        Some(ChangeType::Split)
    } else if s == "merge"@ {
        Some(ChangeType::Merge)
    } else if s == "revert"@ {
        Some(ChangeType::Revert)
    } else if s == "relation-add"@ {
        Some(ChangeType::RelationAdd)
    } else if s == "relation-remove"@ {
        Some(ChangeType::RelationRemove)
    } else {
        None
    }
}

impl ChangeType {
    /// The kebab-case name.
    pub fn as_str(&self) -> (r: &'static str)
        ensures
            r@ == change_type_text(*self),
    {
        match self {
            ChangeType::ContentUpdate => "content-update",
            ChangeType::Create => "create",
            ChangeType::Delete => "delete",
            ChangeType::Move => "move",
            ChangeType::Rename => "rename",
            ChangeType::Split => "split",
            ChangeType::Merge => "merge",
            ChangeType::Revert => "revert",
            ChangeType::RelationAdd => "relation-add",
            ChangeType::RelationRemove => "relation-remove",
        }
    }
    /// The change type named `s`, if any.
    pub fn parse(s: &str) -> (r: Option<ChangeType>)
        ensures
            r == change_type_from_text(s@),
    {
        if str_eq(s, "content-update") {
            Some(ChangeType::ContentUpdate)
        } else if str_eq(s, "create") {
            Some(ChangeType::Create)
        } else if str_eq(s, "delete") {
            Some(ChangeType::Delete)
        } else if str_eq(s, "move") {
            Some(ChangeType::Move)
        } else if str_eq(s, "rename") {
            Some(ChangeType::Rename)
        } else if str_eq(s, "split") {
            Some(ChangeType::Split)
        } else if str_eq(s, "merge") {
            Some(ChangeType::Merge)
        } else if str_eq(s, "revert") {
            Some(ChangeType::Revert)
        } else if str_eq(s, "relation-add") {
            Some(ChangeType::RelationAdd)
        } else if str_eq(s, "relation-remove") {
            Some(ChangeType::RelationRemove)
        } else {
            None
        }
    }
}

/// Every change type's name parses back to that type.
pub proof fn law_change_type_name_roundtrip(k: ChangeType)
    ensures
        change_type_from_text(change_type_text(k)) == Some(k),
{
    reveal_strlit("content-update");
    reveal_strlit("create");
    reveal_strlit("delete");
    reveal_strlit("move");
    reveal_strlit("rename");
    reveal_strlit("split");
    reveal_strlit("merge");
    reveal_strlit("revert");
    reveal_strlit("relation-add");
    reveal_strlit("relation-remove");
    match k {
        ChangeType::ContentUpdate => {
            assert(change_type_from_text("content-update"@) == Some(ChangeType::ContentUpdate));
        },
        ChangeType::Create => {
            assert(("create"@).len() != ("content-update"@).len());
            assert(change_type_from_text("create"@) == Some(ChangeType::Create));
        },
        ChangeType::Delete => {
            assert(("delete"@).len() != ("content-update"@).len());
            assert(("delete"@)[0] != ("create"@)[0]);
            assert(change_type_from_text("delete"@) == Some(ChangeType::Delete));
        },
        ChangeType::Move => {
            assert(("move"@).len() != ("content-update"@).len());
            assert(("move"@).len() != ("create"@).len());
            assert(("move"@).len() != ("delete"@).len());
            assert(change_type_from_text("move"@) == Some(ChangeType::Move));
        },
        ChangeType::Rename => {
            assert(("rename"@).len() != ("content-update"@).len());
            assert(("rename"@)[0] != ("create"@)[0]);
            assert(("rename"@)[0] != ("delete"@)[0]);
            assert(("rename"@).len() != ("move"@).len());
            assert(change_type_from_text("rename"@) == Some(ChangeType::Rename));
        },
        ChangeType::Split => {
            assert(("split"@).len() != ("content-update"@).len());
            assert(("split"@).len() != ("create"@).len());
            assert(("split"@).len() != ("delete"@).len());
            assert(("split"@).len() != ("move"@).len());
            assert(("split"@).len() != ("rename"@).len());
            assert(change_type_from_text("split"@) == Some(ChangeType::Split));
        },
        ChangeType::Merge => {
            assert(("merge"@).len() != ("content-update"@).len());
            assert(("merge"@).len() != ("create"@).len());
            assert(("merge"@).len() != ("delete"@).len());
            assert(("merge"@).len() != ("move"@).len());
            assert(("merge"@).len() != ("rename"@).len());
            assert(("merge"@)[0] != ("split"@)[0]);
            assert(change_type_from_text("merge"@) == Some(ChangeType::Merge));
        },
        ChangeType::Revert => {
            assert(("revert"@).len() != ("content-update"@).len());
            assert(("revert"@)[0] != ("create"@)[0]);
            assert(("revert"@)[0] != ("delete"@)[0]);
            assert(("revert"@).len() != ("move"@).len());
            assert(("revert"@)[2] != ("rename"@)[2]);
            assert(("revert"@).len() != ("split"@).len());
            assert(("revert"@).len() != ("merge"@).len());
            assert(change_type_from_text("revert"@) == Some(ChangeType::Revert));
        },
        ChangeType::RelationAdd => {
            assert(("relation-add"@).len() != ("content-update"@).len());
            assert(("relation-add"@).len() != ("create"@).len());
            assert(("relation-add"@).len() != ("delete"@).len());
            assert(("relation-add"@).len() != ("move"@).len());
            assert(("relation-add"@).len() != ("rename"@).len());
            assert(("relation-add"@).len() != ("split"@).len());
            assert(("relation-add"@).len() != ("merge"@).len());
            assert(("relation-add"@).len() != ("revert"@).len());
            assert(change_type_from_text("relation-add"@) == Some(ChangeType::RelationAdd));
        },
        ChangeType::RelationRemove => {
            assert(("relation-remove"@).len() != ("content-update"@).len());
            assert(("relation-remove"@).len() != ("create"@).len());
            assert(("relation-remove"@).len() != ("delete"@).len());
            assert(("relation-remove"@).len() != ("move"@).len());
            assert(("relation-remove"@).len() != ("rename"@).len());
            assert(("relation-remove"@).len() != ("split"@).len());
            assert(("relation-remove"@).len() != ("merge"@).len());
            assert(("relation-remove"@).len() != ("revert"@).len());
            assert(("relation-remove"@).len() != ("relation-add"@).len());
            assert(change_type_from_text("relation-remove"@) == Some(ChangeType::RelationRemove));
        },
    }
}

/// The mathematical value of a patch.
pub struct PatchV {
    pub content: Option<Seq<char>>,
    pub title: Option<Seq<char>>,
    pub semantic_type: Option<Seq<char>>,
    pub kind: Option<NodeKind>,
    pub position: Option<u32>,
    pub attributes: Entries,
}

/// A partial update to a node.
#[derive(Debug)]
pub struct Patch {
    pub content: Option<String>,
    pub title: Option<String>,
    pub semantic_type: Option<String>,
    pub kind: Option<NodeKind>,
    pub position: Option<u32>,
    pub attributes: AttrMap,
}

impl Default for Patch {
    /// A patch that changes nothing.
    fn default() -> (r: Patch)
        ensures
            r@ == (PatchV {
                content: None,
                title: None,
                semantic_type: None,
                kind: None,
                position: None,
                attributes: Seq::empty(),
            }),
    {
        Patch {
            content: None,
            title: None,
            semantic_type: None,
            kind: None,
            position: None,
            attributes: crate::attrs::attrs_new(),
        }
    }
}

impl View for Patch {
    type V = PatchV;

    open spec fn view(&self) -> PatchV {
        PatchV {
            content: opt_str_view(self.content),
            title: opt_str_view(self.title),
            semantic_type: opt_str_view(self.semantic_type),
            kind: self.kind,
            position: self.position,
            attributes: attr_entries(self.attributes),
        }
    }
}

impl Patch {
    /// A patch that changes nothing.
    pub fn empty() -> (r: Patch)
        ensures
            r@ == (PatchV {
                content: None,
                title: None,
                semantic_type: None,
                kind: None,
                position: None,
                attributes: Seq::empty(),
            }),
    {
        Patch {
            content: None,
            title: None,
            semantic_type: None,
            kind: None,
            position: None,
            attributes: attrs_new(),
        }
    }
}

impl Clone for Patch {
    fn clone(&self) -> (r: Self)
        ensures
            r@ == self@,
    {
        Patch {
            content: crate::node::clone_opt_string(&self.content),
            title: crate::node::clone_opt_string(&self.title),
            semantic_type: crate::node::clone_opt_string(&self.semantic_type),
            kind: self.kind,
            position: self.position,
            attributes: attrs_clone(&self.attributes),
        }
    }
}

/// A declarative edit intent; applying one produces a revision.
#[derive(Debug)]
pub struct Operation {
    pub id: OpId,
    pub op_type: OperationType,
    /// Primary target node (for split: the source).
    pub target: Option<NodeId>,
    /// Optimistic-concurrency check against the head revision.
    pub expected_revision: RevisionId,
    /// Optional content-hash check against the target's stored hash.
    pub expected_hash: Option<String>,
    /// For revert only.
    pub target_revision: Option<RevisionId>,
    /// For split / merge / link / unlink.
    pub targets: Vec<NodeId>,
    pub actor: crate::provenance::Provenance,
    pub patch: Option<Patch>,
    pub reason: Option<String>,
}

/// The mathematical value of an operation.
pub struct OperationV {
    pub id: Seq<char>,
    pub op_type: OperationType,
    pub target: Option<Seq<char>>,
    pub expected_revision: Seq<char>,
    pub expected_hash: Option<Seq<char>>,
    pub target_revision: Option<Seq<char>>,
    pub targets: Seq<Seq<char>>,
    pub actor: crate::provenance::Provenance,
    pub patch: Option<PatchV>,
    pub reason: Option<Seq<char>>,
}

pub open spec fn ids_view(v: Seq<NodeId>) -> Seq<Seq<char>> {
    v.map_values(|n: NodeId| n@)
}

impl View for Operation {
    type V = OperationV;

    open spec fn view(&self) -> OperationV {
        OperationV {
            id: self.id@,
            op_type: self.op_type,
            target: opt_id_view(self.target),
            expected_revision: self.expected_revision@,
            expected_hash: opt_str_view(self.expected_hash),
            target_revision: opt_rev_view(self.target_revision),
            targets: ids_view(self.targets@),
            actor: self.actor,
            patch: match self.patch {
                Some(p) => Some(p@),
                None => None,
            },
            reason: opt_str_view(self.reason),
        }
    }
}

/// The mathematical value of a relation.
pub struct RelationV {
    pub id: Seq<char>,
    pub source: Seq<char>,
    pub target: Seq<char>,
    pub kind: RelationKind,
    pub custom_kind: Option<Seq<char>>,
    pub attributes: Entries,
}

/// A typed semantic link from one node to another.
#[derive(Debug)]
pub struct Relation {
    pub id: String,
    pub source: NodeId,
    pub target: NodeId,
    pub kind: RelationKind,
    pub custom_kind: Option<String>,
    pub attributes: AttrMap,
}

impl View for Relation {
    type V = RelationV;

    open spec fn view(&self) -> RelationV {
        RelationV {
            id: self.id@,
            source: self.source@,
            target: self.target@,
            kind: self.kind,
            custom_kind: opt_str_view(self.custom_kind),
            attributes: attr_entries(self.attributes),
        }
    }
}

impl Clone for Relation {
    fn clone(&self) -> (r: Self)
        ensures
            r@ == self@,
    {
        Relation {
            id: self.id.clone(),
            source: self.source.clone(),
            target: self.target.clone(),
            kind: self.kind,
            custom_kind: crate::node::clone_opt_string(&self.custom_kind),
            attributes: attrs_clone(&self.attributes),
        }
    }
}

/// A content hash reference.
#[derive(Debug)]
pub struct HashRef {
    pub hash: String,
}

pub open spec fn opt_hash_view(h: Option<HashRef>) -> Option<Seq<char>> {
    match h {
        Some(h) => Some(h.hash@),
        None => None,
    }
}

/// The mathematical value of a change record.
pub struct ChangeV {
    pub id: Seq<char>,
    pub revision: Seq<char>,
    pub node: Seq<char>,
    pub change_type: ChangeType,
    pub before: Option<Seq<char>>,
    pub after: Option<Seq<char>>,
    pub summary: Option<Seq<char>>,
}

/// What actually mutated at node level within one revision.
#[derive(Debug)]
pub struct Change {
    pub id: String,
    pub revision: RevisionId,
    pub node: NodeId,
    pub change_type: ChangeType,
    pub before: Option<HashRef>,
    pub after: Option<HashRef>,
    pub summary: Option<String>,
}

impl View for Change {
    type V = ChangeV;

    open spec fn view(&self) -> ChangeV {
        ChangeV {
            id: self.id@,
            revision: self.revision@,
            node: self.node@,
            change_type: self.change_type,
            before: opt_hash_view(self.before),
            after: opt_hash_view(self.after),
            summary: opt_str_view(self.summary),
        }
    }
}

pub fn clone_opt_hash(h: &Option<HashRef>) -> (r: Option<HashRef>)
    ensures
        opt_hash_view(r) == opt_hash_view(*h),
{
    match h {
        Some(h) => Some(HashRef { hash: h.hash.clone() }),
        None => None,
    }
}

impl Clone for Change {
    fn clone(&self) -> (r: Self)
        ensures
            r@ == self@,
    {
        Change {
            id: self.id.clone(),
            revision: self.revision.clone(),
            node: self.node.clone(),
            change_type: self.change_type,
            before: clone_opt_hash(&self.before),
            after: clone_opt_hash(&self.after),
            summary: crate::node::clone_opt_string(&self.summary),
        }
    }
}

/// The mathematical value of a revision.
pub struct RevisionV {
    pub id: Seq<char>,
    pub parent: Option<Seq<char>>,
    pub operation: Seq<char>,
    pub created_at: Seq<char>,
    pub message: Option<Seq<char>>,
    pub branch: Option<Seq<char>>,
}

pub open spec fn opt_rev_view(o: Option<RevisionId>) -> Option<Seq<char>> {
    match o {
        Some(r) => Some(r@),
        None => None,
    }
}

pub fn clone_opt_rev(o: &Option<RevisionId>) -> (r: Option<RevisionId>)
    ensures
        opt_rev_view(r) == opt_rev_view(*o),
{
    match o {
        Some(x) => Some(x.clone()),
        None => None,
    }
}

/// A full document state at a logical instant. `created_at` is RFC 3339 text.
#[derive(Debug)]
pub struct Revision {
    pub id: RevisionId,
    pub parent: Option<RevisionId>,
    pub operation: OpId,
    pub created_at: String,
    pub message: Option<String>,
    pub branch: Option<String>,
}

impl View for Revision {
    type V = RevisionV;

    open spec fn view(&self) -> RevisionV {
        RevisionV {
            id: self.id@,
            parent: opt_rev_view(self.parent),
            operation: self.operation@,
            created_at: self.created_at@,
            message: opt_str_view(self.message),
            branch: opt_str_view(self.branch),
        }
    }
}

impl Clone for Revision {
    fn clone(&self) -> (r: Self)
        ensures
            r@ == self@,
    {
        Revision {
            id: self.id.clone(),
            parent: clone_opt_rev(&self.parent),
            operation: self.operation.clone(),
            created_at: self.created_at.clone(),
            message: crate::node::clone_opt_string(&self.message),
            branch: crate::node::clone_opt_string(&self.branch),
        }
    }
}

/// The mathematical value of a document header.
pub struct DocumentV {
    pub id: Seq<char>,
    pub title: Seq<char>,
    pub root_node: Seq<char>,
    pub version: Seq<char>,
}

/// The document header: id, title, root node and format version.
#[derive(Debug)]
pub struct Document {
    pub id: String,
    pub title: String,
    pub root_node: NodeId,
    pub version: String,
}

impl View for Document {
    type V = DocumentV;

    open spec fn view(&self) -> DocumentV {
        DocumentV {
            id: self.id@,
            title: self.title@,
            root_node: self.root_node@,
            version: self.version@,
        }
    }
}

impl Clone for Document {
    fn clone(&self) -> (r: Self)
        ensures
            r@ == self@,
    {
        Document {
            id: self.id.clone(),
            title: self.title.clone(),
            root_node: self.root_node.clone(),
            version: self.version.clone(),
        }
    }
}

/// The format version new documents get.
pub open spec fn default_version_text() -> Seq<char> {
    "0.2"@
}

pub fn default_version() -> (r: String)
    ensures
        r@ == default_version_text(),
{
    owned("0.2")
}

impl Document {
    pub fn new(id: &str, title: &str, root: NodeId) -> (r: Document)
        ensures
            r@ == (DocumentV {
                id: id@,
                title: title@,
                root_node: root@,
                version: default_version_text(),
            }),
    {
        Document { id: owned(id), title: owned(title), root_node: root, version: default_version() }
    }
}

} // verus!
