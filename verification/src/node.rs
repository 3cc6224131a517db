//! Nodes, the atomic unit of a document.

use vstd::prelude::*;
use crate::attrs::{attr_entries, attrs_clone, attrs_eq, attrs_new, same_entries, AttrMap, Entries};
use crate::id::NodeId;
use crate::text::{opt_str_view, str_eq};

verus! {

/// Every node kind of the format.
#[derive(Debug, Clone, Copy, PartialEq, Eq, Hash, Structural)]
pub enum NodeKind {
    Section,
    Paragraph,
    Heading,
    List,
    ListItem,
    Table,
    TableRow,
    TableCell,
    Code,
    Blockquote,
    Link,
    Image,
    Diagram,
    CodeRef,
    Requirement,
    Decision,
    Problem,
    Solution,
    Reference,
    Details,
    Summary,
    Generic,
}

pub open spec fn spec_is_block(k: NodeKind) -> bool {
    matches!(k, NodeKind::Section | NodeKind::Paragraph | NodeKind::Heading | NodeKind::List
        | NodeKind::Table | NodeKind::Code | NodeKind::Blockquote | NodeKind::Diagram
        | NodeKind::CodeRef | NodeKind::Requirement | NodeKind::Decision | NodeKind::Problem
        | NodeKind::Solution | NodeKind::Details | NodeKind::Generic)
}

/// The kebab-case name of a kind.
pub open spec fn kind_text(k: NodeKind) -> Seq<char> {
    match k {
        NodeKind::Section => "section"@,
        NodeKind::Paragraph => "paragraph"@,
        NodeKind::Heading => "heading"@,
        NodeKind::List => "list"@,
        NodeKind::ListItem => "list-item"@,
        NodeKind::Table => "table"@,
        NodeKind::TableRow => "table-row"@,
        NodeKind::TableCell => "table-cell"@,
        NodeKind::Code => "code"@,
        NodeKind::Blockquote => "blockquote"@,
        NodeKind::Link => "link"@,
        NodeKind::Image => "image"@,
        NodeKind::Diagram => "diagram"@,
        NodeKind::CodeRef => "code-ref"@,
        NodeKind::Requirement => "requirement"@,
        NodeKind::Decision => "decision"@,
        NodeKind::Problem => "problem"@,
        NodeKind::Solution => "solution"@,
        NodeKind::Reference => "reference"@,
        NodeKind::Details => "details"@,
        NodeKind::Summary => "summary"@,
        NodeKind::Generic => "generic"@,
    }
}

/// The kind whose kebab-case name is `s`, if any.
pub open spec fn kind_from_text(s: Seq<char>) -> Option<NodeKind> {
    if s == "section"@ {
        Some(NodeKind::Section)
    } else if s == "paragraph"@ {
        Some(NodeKind::Paragraph)
    } else if s == "heading"@ {
        Some(NodeKind::Heading)
    } else if s == "list"@ {
        Some(NodeKind::List)
    } else if s == "list-item"@ {
        Some(NodeKind::ListItem)
    } else if s == "table"@ {
        Some(NodeKind::Table)
    } else if s == "table-row"@ {
        Some(NodeKind::TableRow)
    } else if s == "table-cell"@ {
        Some(NodeKind::TableCell)
    } else if s == "code"@ {
        Some(NodeKind::Code)
    } else if s == "blockquote"@ {
        Some(NodeKind::Blockquote)
    } else if s == "link"@ {
        Some(NodeKind::Link)
    } else if s == "image"@ {
        Some(NodeKind::Image)
    } else if s == "diagram"@ {
        Some(NodeKind::Diagram)
    } else if s == "code-ref"@ {
        Some(NodeKind::CodeRef)
    } else if s == "requirement"@ {
        Some(NodeKind::Requirement)
    } else if s == "decision"@ {
        Some(NodeKind::Decision)
    } else if s == "problem"@ {
        Some(NodeKind::Problem)
    } else if s == "solution"@ {
        Some(NodeKind::Solution)
    } else if s == "reference"@ {
        Some(NodeKind::Reference)
    } else if s == "details"@ {
        Some(NodeKind::Details)
    } else if s == "summary"@ {
        Some(NodeKind::Summary)
    } else if s == "generic"@ {
        Some(NodeKind::Generic)
    } else {
        None
    }
}

impl NodeKind {
    /// Block-level kinds (everything but list items, table rows and cells,
    /// links, images, references and summaries).
    pub fn is_block(&self) -> (r: bool)
        ensures
            r == spec_is_block(*self),
    {
        match self {
            NodeKind::Section | NodeKind::Paragraph | NodeKind::Heading | NodeKind::List
            | NodeKind::Table | NodeKind::Code | NodeKind::Blockquote | NodeKind::Diagram
            | NodeKind::CodeRef | NodeKind::Requirement | NodeKind::Decision | NodeKind::Problem
            | NodeKind::Solution | NodeKind::Details | NodeKind::Generic => true,
            _ => false,
        }
    }

    /// The kebab-case name.
    pub fn as_str(&self) -> (r: &'static str)
        ensures
            r@ == kind_text(*self),
    {
        match self {
            NodeKind::Section => "section",
            NodeKind::Paragraph => "paragraph",
            NodeKind::Heading => "heading",
            NodeKind::List => "list",
            NodeKind::ListItem => "list-item",
            NodeKind::Table => "table",
            NodeKind::TableRow => "table-row",
            NodeKind::TableCell => "table-cell",
            NodeKind::Code => "code",
            NodeKind::Blockquote => "blockquote",
            NodeKind::Link => "link",
            NodeKind::Image => "image",
            NodeKind::Diagram => "diagram",
            NodeKind::CodeRef => "code-ref",
            NodeKind::Requirement => "requirement",
            NodeKind::Decision => "decision",
            NodeKind::Problem => "problem",
            NodeKind::Solution => "solution",
            NodeKind::Reference => "reference",
            NodeKind::Details => "details",
            NodeKind::Summary => "summary",
            NodeKind::Generic => "generic",
        }
    }

    /// The kind named `s` in kebab case, `None` for any other string.
    pub fn parse(s: &str) -> (r: Option<NodeKind>)
        ensures
            r == kind_from_text(s@),
    {
        if str_eq(s, "section") {
            Some(NodeKind::Section)
        } else if str_eq(s, "paragraph") {
            Some(NodeKind::Paragraph)
        } else if str_eq(s, "heading") {
            Some(NodeKind::Heading)
        } else if str_eq(s, "list") {
            Some(NodeKind::List)
        } else if str_eq(s, "list-item") {
            Some(NodeKind::ListItem)
        } else if str_eq(s, "table") {
            Some(NodeKind::Table)
        } else if str_eq(s, "table-row") {
            Some(NodeKind::TableRow)
        } else if str_eq(s, "table-cell") {
            Some(NodeKind::TableCell)
        } else if str_eq(s, "code") {
            Some(NodeKind::Code)
        } else if str_eq(s, "blockquote") {
            Some(NodeKind::Blockquote)
        } else if str_eq(s, "link") {
            Some(NodeKind::Link)
        } else if str_eq(s, "image") {
            Some(NodeKind::Image)
        } else if str_eq(s, "diagram") {
            Some(NodeKind::Diagram)
        } else if str_eq(s, "code-ref") {
            Some(NodeKind::CodeRef)
        } else if str_eq(s, "requirement") {
            Some(NodeKind::Requirement)
        } else if str_eq(s, "decision") {
            Some(NodeKind::Decision)
        } else if str_eq(s, "problem") {
            Some(NodeKind::Problem)
        } else if str_eq(s, "solution") {
            Some(NodeKind::Solution)
        } else if str_eq(s, "reference") {
            Some(NodeKind::Reference)
        } else if str_eq(s, "details") {
            Some(NodeKind::Details)
        } else if str_eq(s, "summary") {
            Some(NodeKind::Summary)
        } else if str_eq(s, "generic") {
            Some(NodeKind::Generic)
        } else {
            None
        }
    }
}

/// Every kind's name parses back to that kind.
pub proof fn law_kind_name_roundtrip(k: NodeKind)
    ensures
        kind_from_text(kind_text(k)) == Some(k),
{
    reveal_strlit("section");
    reveal_strlit("paragraph");
    reveal_strlit("heading");
    reveal_strlit("list");
    reveal_strlit("list-item");
    reveal_strlit("table");
    reveal_strlit("table-row");
    reveal_strlit("table-cell");
    reveal_strlit("code");
    reveal_strlit("blockquote");
    reveal_strlit("link");
    reveal_strlit("image");
    reveal_strlit("diagram");
    reveal_strlit("code-ref");
    reveal_strlit("requirement");
    reveal_strlit("decision");
    reveal_strlit("problem");
    reveal_strlit("solution");
    reveal_strlit("reference");
    reveal_strlit("details");
    reveal_strlit("summary");
    reveal_strlit("generic");
    match k {
        NodeKind::Section => {
            assert(kind_from_text("section"@) == Some(NodeKind::Section));
        },
        NodeKind::Paragraph => {
            assert(("paragraph"@).len() != ("section"@).len());
            assert(kind_from_text("paragraph"@) == Some(NodeKind::Paragraph));
        },
        NodeKind::Heading => {
            assert(("heading"@)[0] != ("section"@)[0]);
            assert(("heading"@).len() != ("paragraph"@).len());
            assert(kind_from_text("heading"@) == Some(NodeKind::Heading));
        },
        NodeKind::List => {
            assert(("list"@).len() != ("section"@).len());
            assert(("list"@).len() != ("paragraph"@).len());
            assert(("list"@).len() != ("heading"@).len());
            assert(kind_from_text("list"@) == Some(NodeKind::List));
        },
        NodeKind::ListItem => {
            assert(("list-item"@).len() != ("section"@).len());
            assert(("list-item"@)[0] != ("paragraph"@)[0]);
            assert(("list-item"@).len() != ("heading"@).len());
            assert(("list-item"@).len() != ("list"@).len());
            assert(kind_from_text("list-item"@) == Some(NodeKind::ListItem));
        },
        NodeKind::Table => {
            assert(("table"@).len() != ("section"@).len());
            assert(("table"@).len() != ("paragraph"@).len());
            assert(("table"@).len() != ("heading"@).len());
            assert(("table"@).len() != ("list"@).len());
            assert(("table"@).len() != ("list-item"@).len());
            assert(kind_from_text("table"@) == Some(NodeKind::Table));
        },
        NodeKind::TableRow => {
            assert(("table-row"@).len() != ("section"@).len());
            assert(("table-row"@)[0] != ("paragraph"@)[0]);
            assert(("table-row"@).len() != ("heading"@).len());
            assert(("table-row"@).len() != ("list"@).len());
            assert(("table-row"@)[0] != ("list-item"@)[0]);
            assert(("table-row"@).len() != ("table"@).len());
            assert(kind_from_text("table-row"@) == Some(NodeKind::TableRow));
        },
        NodeKind::TableCell => {
            assert(("table-cell"@).len() != ("section"@).len());
            assert(("table-cell"@).len() != ("paragraph"@).len());
            assert(("table-cell"@).len() != ("heading"@).len());
            assert(("table-cell"@).len() != ("list"@).len());
            assert(("table-cell"@).len() != ("list-item"@).len());
            assert(("table-cell"@).len() != ("table"@).len());
            assert(("table-cell"@).len() != ("table-row"@).len());
            assert(kind_from_text("table-cell"@) == Some(NodeKind::TableCell));
        },
        NodeKind::Code => {
            assert(("code"@).len() != ("section"@).len());
            assert(("code"@).len() != ("paragraph"@).len());
            assert(("code"@).len() != ("heading"@).len());
            assert(("code"@)[0] != ("list"@)[0]);
            assert(("code"@).len() != ("list-item"@).len());
            assert(("code"@).len() != ("table"@).len());
            assert(("code"@).len() != ("table-row"@).len());
            assert(("code"@).len() != ("table-cell"@).len());
            assert(kind_from_text("code"@) == Some(NodeKind::Code));
        },
        NodeKind::Blockquote => {
            assert(("blockquote"@).len() != ("section"@).len());
            assert(("blockquote"@).len() != ("paragraph"@).len());
            assert(("blockquote"@).len() != ("heading"@).len());
            assert(("blockquote"@).len() != ("list"@).len());
            assert(("blockquote"@).len() != ("list-item"@).len());
            assert(("blockquote"@).len() != ("table"@).len());
            assert(("blockquote"@).len() != ("table-row"@).len());
            assert(("blockquote"@)[0] != ("table-cell"@)[0]);
            assert(("blockquote"@).len() != ("code"@).len());
            assert(kind_from_text("blockquote"@) == Some(NodeKind::Blockquote));
        },
        NodeKind::Link => {
            assert(("link"@).len() != ("section"@).len());
            assert(("link"@).len() != ("paragraph"@).len());
            assert(("link"@).len() != ("heading"@).len());
            assert(("link"@)[2] != ("list"@)[2]);
            assert(("link"@).len() != ("list-item"@).len());
            assert(("link"@).len() != ("table"@).len());
            assert(("link"@).len() != ("table-row"@).len());
            assert(("link"@).len() != ("table-cell"@).len());
            assert(("link"@)[0] != ("code"@)[0]);
            assert(("link"@).len() != ("blockquote"@).len());
            assert(kind_from_text("link"@) == Some(NodeKind::Link));
        },
        NodeKind::Image => {
            assert(("image"@).len() != ("section"@).len());
            assert(("image"@).len() != ("paragraph"@).len());
            assert(("image"@).len() != ("heading"@).len());
            assert(("image"@).len() != ("list"@).len());
            assert(("image"@).len() != ("list-item"@).len());
            assert(("image"@)[0] != ("table"@)[0]);
            assert(("image"@).len() != ("table-row"@).len());
            assert(("image"@).len() != ("table-cell"@).len());
            assert(("image"@).len() != ("code"@).len());
            assert(("image"@).len() != ("blockquote"@).len());
            assert(("image"@).len() != ("link"@).len());
            assert(kind_from_text("image"@) == Some(NodeKind::Image));
        },
        NodeKind::Diagram => {
            assert(("diagram"@)[0] != ("section"@)[0]);
            assert(("diagram"@).len() != ("paragraph"@).len());
            assert(("diagram"@)[0] != ("heading"@)[0]);
            assert(("diagram"@).len() != ("list"@).len());
            assert(("diagram"@).len() != ("list-item"@).len());
            assert(("diagram"@).len() != ("table"@).len());
            assert(("diagram"@).len() != ("table-row"@).len());
            assert(("diagram"@).len() != ("table-cell"@).len());
            assert(("diagram"@).len() != ("code"@).len());
            assert(("diagram"@).len() != ("blockquote"@).len());
            assert(("diagram"@).len() != ("link"@).len());
            assert(("diagram"@).len() != ("image"@).len());
            assert(kind_from_text("diagram"@) == Some(NodeKind::Diagram));
        },
        NodeKind::CodeRef => {
            assert(("code-ref"@).len() != ("section"@).len());
            assert(("code-ref"@).len() != ("paragraph"@).len());
            assert(("code-ref"@).len() != ("heading"@).len());
            assert(("code-ref"@).len() != ("list"@).len());
            assert(("code-ref"@).len() != ("list-item"@).len());
            assert(("code-ref"@).len() != ("table"@).len());
            assert(("code-ref"@).len() != ("table-row"@).len());
            assert(("code-ref"@).len() != ("table-cell"@).len());
            assert(("code-ref"@).len() != ("code"@).len());
            assert(("code-ref"@).len() != ("blockquote"@).len());
            assert(("code-ref"@).len() != ("link"@).len());
            assert(("code-ref"@).len() != ("image"@).len());
            assert(("code-ref"@).len() != ("diagram"@).len());
            assert(kind_from_text("code-ref"@) == Some(NodeKind::CodeRef));
        },
        NodeKind::Requirement => {
            assert(("requirement"@).len() != ("section"@).len());
            assert(("requirement"@).len() != ("paragraph"@).len());
            assert(("requirement"@).len() != ("heading"@).len());
            assert(("requirement"@).len() != ("list"@).len());
            assert(("requirement"@).len() != ("list-item"@).len());
            assert(("requirement"@).len() != ("table"@).len());
            assert(("requirement"@).len() != ("table-row"@).len());
            assert(("requirement"@).len() != ("table-cell"@).len());
            assert(("requirement"@).len() != ("code"@).len());
            assert(("requirement"@).len() != ("blockquote"@).len());
            assert(("requirement"@).len() != ("link"@).len());
            assert(("requirement"@).len() != ("image"@).len());
            assert(("requirement"@).len() != ("diagram"@).len());
            assert(("requirement"@).len() != ("code-ref"@).len());
            assert(kind_from_text("requirement"@) == Some(NodeKind::Requirement));
        },
        NodeKind::Decision => {
            assert(("decision"@).len() != ("section"@).len());
            assert(("decision"@).len() != ("paragraph"@).len());
            assert(("decision"@).len() != ("heading"@).len());
            assert(("decision"@).len() != ("list"@).len());
            assert(("decision"@).len() != ("list-item"@).len());
            assert(("decision"@).len() != ("table"@).len());
            assert(("decision"@).len() != ("table-row"@).len());
            assert(("decision"@).len() != ("table-cell"@).len());
            assert(("decision"@).len() != ("code"@).len());
            assert(("decision"@).len() != ("blockquote"@).len());
            assert(("decision"@).len() != ("link"@).len());
            assert(("decision"@).len() != ("image"@).len());
            assert(("decision"@).len() != ("diagram"@).len());
            assert(("decision"@)[0] != ("code-ref"@)[0]);
            assert(("decision"@).len() != ("requirement"@).len());
            assert(kind_from_text("decision"@) == Some(NodeKind::Decision));
        },
        NodeKind::Problem => {
            assert(("problem"@)[0] != ("section"@)[0]);
            assert(("problem"@).len() != ("paragraph"@).len());
            assert(("problem"@)[0] != ("heading"@)[0]);
            assert(("problem"@).len() != ("list"@).len());
            assert(("problem"@).len() != ("list-item"@).len());
            assert(("problem"@).len() != ("table"@).len());
            assert(("problem"@).len() != ("table-row"@).len());
            assert(("problem"@).len() != ("table-cell"@).len());
            assert(("problem"@).len() != ("code"@).len());
            assert(("problem"@).len() != ("blockquote"@).len());
            assert(("problem"@).len() != ("link"@).len());
            assert(("problem"@).len() != ("image"@).len());
            assert(("problem"@)[0] != ("diagram"@)[0]);
            assert(("problem"@).len() != ("code-ref"@).len());
            assert(("problem"@).len() != ("requirement"@).len());
            assert(("problem"@).len() != ("decision"@).len());
            assert(kind_from_text("problem"@) == Some(NodeKind::Problem));
        },
        NodeKind::Solution => {
            assert(("solution"@).len() != ("section"@).len());
            assert(("solution"@).len() != ("paragraph"@).len());
            assert(("solution"@).len() != ("heading"@).len());
            assert(("solution"@).len() != ("list"@).len());
            assert(("solution"@).len() != ("list-item"@).len());
            assert(("solution"@).len() != ("table"@).len());
            assert(("solution"@).len() != ("table-row"@).len());
            assert(("solution"@).len() != ("table-cell"@).len());
            assert(("solution"@).len() != ("code"@).len());
            assert(("solution"@).len() != ("blockquote"@).len());
            assert(("solution"@).len() != ("link"@).len());
            assert(("solution"@).len() != ("image"@).len());
            assert(("solution"@).len() != ("diagram"@).len());
            assert(("solution"@)[0] != ("code-ref"@)[0]);
            assert(("solution"@).len() != ("requirement"@).len());
            assert(("solution"@)[0] != ("decision"@)[0]);
            assert(("solution"@).len() != ("problem"@).len());
            assert(kind_from_text("solution"@) == Some(NodeKind::Solution));
        },
        NodeKind::Reference => {
            assert(("reference"@).len() != ("section"@).len());
            assert(("reference"@)[0] != ("paragraph"@)[0]);
            assert(("reference"@).len() != ("heading"@).len());
            assert(("reference"@).len() != ("list"@).len());
            assert(("reference"@)[0] != ("list-item"@)[0]);
            assert(("reference"@).len() != ("table"@).len());
            assert(("reference"@)[0] != ("table-row"@)[0]);
            assert(("reference"@).len() != ("table-cell"@).len());
            assert(("reference"@).len() != ("code"@).len());
            assert(("reference"@).len() != ("blockquote"@).len());
            assert(("reference"@).len() != ("link"@).len());
            assert(("reference"@).len() != ("image"@).len());
            assert(("reference"@).len() != ("diagram"@).len());
            assert(("reference"@).len() != ("code-ref"@).len());
            assert(("reference"@).len() != ("requirement"@).len());
            assert(("reference"@).len() != ("decision"@).len());
            assert(("reference"@).len() != ("problem"@).len());
            assert(("reference"@).len() != ("solution"@).len());
            assert(kind_from_text("reference"@) == Some(NodeKind::Reference));
        },
        NodeKind::Details => {
            assert(("details"@)[0] != ("section"@)[0]);
            assert(("details"@).len() != ("paragraph"@).len());
            assert(("details"@)[0] != ("heading"@)[0]);
            assert(("details"@).len() != ("list"@).len());
            assert(("details"@).len() != ("list-item"@).len());
            assert(("details"@).len() != ("table"@).len());
            assert(("details"@).len() != ("table-row"@).len());
            assert(("details"@).len() != ("table-cell"@).len());
            assert(("details"@).len() != ("code"@).len());
            assert(("details"@).len() != ("blockquote"@).len());
            assert(("details"@).len() != ("link"@).len());
            assert(("details"@).len() != ("image"@).len());
            assert(("details"@)[1] != ("diagram"@)[1]);
            assert(("details"@).len() != ("code-ref"@).len());
            assert(("details"@).len() != ("requirement"@).len());
            assert(("details"@).len() != ("decision"@).len());
            assert(("details"@)[0] != ("problem"@)[0]);
            assert(("details"@).len() != ("solution"@).len());
            assert(("details"@).len() != ("reference"@).len());
            assert(kind_from_text("details"@) == Some(NodeKind::Details));
        },
        NodeKind::Summary => {
            assert(("summary"@)[1] != ("section"@)[1]);
            assert(("summary"@).len() != ("paragraph"@).len());
            assert(("summary"@)[0] != ("heading"@)[0]);
            assert(("summary"@).len() != ("list"@).len());
            assert(("summary"@).len() != ("list-item"@).len());
            assert(("summary"@).len() != ("table"@).len());
            assert(("summary"@).len() != ("table-row"@).len());
            assert(("summary"@).len() != ("table-cell"@).len());
            assert(("summary"@).len() != ("code"@).len());
            assert(("summary"@).len() != ("blockquote"@).len());
            assert(("summary"@).len() != ("link"@).len());
            assert(("summary"@).len() != ("image"@).len());
            assert(("summary"@)[0] != ("diagram"@)[0]);
            assert(("summary"@).len() != ("code-ref"@).len());
            assert(("summary"@).len() != ("requirement"@).len());
            assert(("summary"@).len() != ("decision"@).len());
            assert(("summary"@)[0] != ("problem"@)[0]);
            assert(("summary"@).len() != ("solution"@).len());
            assert(("summary"@).len() != ("reference"@).len());
            assert(("summary"@)[0] != ("details"@)[0]);
            assert(kind_from_text("summary"@) == Some(NodeKind::Summary));
        },
        NodeKind::Generic => {
            assert(("generic"@)[0] != ("section"@)[0]);
            assert(("generic"@).len() != ("paragraph"@).len());
            assert(("generic"@)[0] != ("heading"@)[0]);
            assert(("generic"@).len() != ("list"@).len());
            assert(("generic"@).len() != ("list-item"@).len());
            assert(("generic"@).len() != ("table"@).len());
            assert(("generic"@).len() != ("table-row"@).len());
            assert(("generic"@).len() != ("table-cell"@).len());
            assert(("generic"@).len() != ("code"@).len());
            assert(("generic"@).len() != ("blockquote"@).len());
            assert(("generic"@).len() != ("link"@).len());
            assert(("generic"@).len() != ("image"@).len());
            assert(("generic"@)[0] != ("diagram"@)[0]);
            assert(("generic"@).len() != ("code-ref"@).len());
            assert(("generic"@).len() != ("requirement"@).len());
            assert(("generic"@).len() != ("decision"@).len());
            assert(("generic"@)[0] != ("problem"@)[0]);
            assert(("generic"@).len() != ("solution"@).len());
            assert(("generic"@).len() != ("reference"@).len());
            assert(("generic"@)[0] != ("details"@)[0]);
            assert(("generic"@)[0] != ("summary"@)[0]);
            assert(kind_from_text("generic"@) == Some(NodeKind::Generic));
        },
    }
}

/// The mathematical value of a node.
pub struct NodeV {
    pub id: Seq<char>,
    pub kind: NodeKind,
    pub parent: Option<Seq<char>>,
    pub position: u32,
    pub semantic_type: Option<Seq<char>>,
    pub content: Seq<char>,
    pub attributes: Entries,
}

/// A node: id, kind, place under its parent, payload and attributes.
#[derive(Debug)]
pub struct Node {
    pub id: NodeId,
    pub kind: NodeKind,
    pub parent: Option<NodeId>,
    pub position: u32,
    pub semantic_type: Option<String>,
    pub content: String,
    pub attributes: AttrMap,
}

pub open spec fn opt_id_view(o: Option<NodeId>) -> Option<Seq<char>> {
    match o {
        Some(id) => Some(id@),
        None => None,
    }
}

impl View for Node {
    type V = NodeV;

    open spec fn view(&self) -> NodeV {
        NodeV {
            id: self.id@,
            kind: self.kind,
            parent: opt_id_view(self.parent),
            position: self.position,
            semantic_type: opt_str_view(self.semantic_type),
            content: self.content@,
            attributes: attr_entries(self.attributes),
        }
    }
}

/// Node equality as `==` on nodes decides it: attributes compare as maps.
pub open spec fn node_equal(a: NodeV, b: NodeV) -> bool {
    &&& a.id == b.id
    &&& a.kind == b.kind
    &&& a.parent == b.parent
    &&& a.position == b.position
    &&& a.semantic_type == b.semantic_type
    &&& a.content == b.content
    &&& same_entries(a.attributes, b.attributes)
}

pub fn clone_opt_id(o: &Option<NodeId>) -> (r: Option<NodeId>)
    ensures
        opt_id_view(r) == opt_id_view(*o),
{
    match o {
        Some(id) => Some(id.clone()),
        None => None,
    }
}

pub fn clone_opt_string(o: &Option<String>) -> (r: Option<String>)
    ensures
        opt_str_view(r) == opt_str_view(*o),
{
    match o {
        Some(s) => Some(s.clone()),
        None => None,
    }
}

pub fn opt_string_eq(a: &Option<String>, b: &Option<String>) -> (r: bool)
    ensures
        r == (opt_str_view(*a) == opt_str_view(*b)),
{
    match (a, b) {
        (Some(x), Some(y)) => x.eq(y),
        (None, None) => true,
        _ => false,
    }
}

pub fn opt_id_eq(a: &Option<NodeId>, b: &Option<NodeId>) -> (r: bool)
    ensures
        r == (opt_id_view(*a) == opt_id_view(*b)),
{
    match (a, b) {
        (Some(x), Some(y)) => x == y,
        (None, None) => true,
        _ => false,
    }
}

impl Clone for Node {
    fn clone(&self) -> (r: Self)
        ensures
            r@ == self@,
    {
        Node {
            id: self.id.clone(),
            kind: self.kind,
            parent: clone_opt_id(&self.parent),
            position: self.position,
            semantic_type: clone_opt_string(&self.semantic_type),
            content: self.content.clone(),
            attributes: attrs_clone(&self.attributes),
        }
    }
}

impl Node {
    /// A root-level node with empty content and no attributes.
    pub fn new(id: NodeId, kind: NodeKind) -> (r: Node)
        ensures
            r@ == (NodeV {
                id: id@,
                kind,
                parent: None,
                position: 0,
                semantic_type: None,
                content: Seq::empty(),
                attributes: Seq::empty(),
            }),
    {
        Node {
            id,
            kind,
            parent: None,
            position: 0,
            semantic_type: None,
            content: String::new(),
            attributes: attrs_new(),
        }
    }

    /// Field-by-field equality; attributes compare as maps.
    pub fn same_as(&self, other: &Node) -> (r: bool)
        ensures
            r == node_equal(self@, other@),
    {
        self.id == other.id && self.kind == other.kind && opt_id_eq(&self.parent, &other.parent)
            && self.position == other.position && opt_string_eq(
            &self.semantic_type,
            &other.semantic_type,
        ) && self.content == other.content && attrs_eq(&self.attributes, &other.attributes)
    }
}

} // verus!
