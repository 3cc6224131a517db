//! Export formats: HTML through the renderer, and a lossy Markdown
//! rendering of the same tree.

use vstd::prelude::*;
use crate::attrs::{attrs_get, entry_get};
use crate::model::{Document, DocumentV, Relation, RelationV};
use crate::node::{Node, NodeKind, NodeV};
use crate::render::{arrow, attr_or, render_html, render_spec};
use crate::store::{first_pos, lemma_first_pos, lemma_first_pos_at, nodes_view};
use crate::text::{owned, str_eq};
use crate::tree::{
    children_of, children_spec, entries_view, rel_entries, relation_entries, top_node, top_spec,
    trim, trimmed, RelEntry, RelEntryV,
};

verus! {

/// The supported export formats.
#[derive(Debug, Clone, Copy, PartialEq, Eq, Hash, Structural)]
pub enum ExportFormat {
    Html,
    Markdown,
}

pub open spec fn format_text(f: ExportFormat) -> Seq<char> {
    match f {
        ExportFormat::Html => "html"@,
        ExportFormat::Markdown => "md"@,
    }
}

impl ExportFormat {
    /// The format's short name, also its file extension.
    pub fn as_str(&self) -> (r: &'static str)
        ensures
            r@ == format_text(*self),
    {
        match self {
            ExportFormat::Html => "html",
            ExportFormat::Markdown => "md",
        }
    }

    /// `html`, or `md` / `markdown`; anything else is refused with the text.
    pub fn parse(s: &str) -> (r: Result<ExportFormat, UnknownExportFormat>)
        ensures
            s@ == "html"@ ==> r == Ok::<ExportFormat, UnknownExportFormat>(ExportFormat::Html),
            (s@ == "md"@ || s@ == "markdown"@) ==> r == Ok::<ExportFormat, UnknownExportFormat>(ExportFormat::Markdown),
            !(s@ == "html"@ || s@ == "md"@ || s@ == "markdown"@) ==> (r matches Err(e) && e.0@ == s@),
    {
        proof {
            reveal_strlit("html");
            reveal_strlit("md");
            reveal_strlit("markdown");
            assert(("md"@).len() != ("html"@).len());
            assert(("markdown"@).len() != ("html"@).len());
        }
        if str_eq(s, "html") {
            Ok(ExportFormat::Html)
        } else if str_eq(s, "md") || str_eq(s, "markdown") {
            Ok(ExportFormat::Markdown)
        } else {
            Err(UnknownExportFormat(owned(s)))
        }
    }
}

impl std::str::FromStr for ExportFormat {
    type Err = UnknownExportFormat;

    fn from_str(s: &str) -> (r: Result<ExportFormat, UnknownExportFormat>)
        ensures
            s@ == "html"@ ==> r == Ok::<ExportFormat, UnknownExportFormat>(ExportFormat::Html),
            (s@ == "md"@ || s@ == "markdown"@) ==> r == Ok::<ExportFormat, UnknownExportFormat>(ExportFormat::Markdown),
            !(s@ == "html"@ || s@ == "md"@ || s@ == "markdown"@) ==> (r matches Err(e) && e.0@ == s@),
    {
        ExportFormat::parse(s)
    }
}

/// A format name that is not recognised.
#[derive(Debug)]
pub struct UnknownExportFormat(pub String);

impl UnknownExportFormat {
    /// `unknown format: {name} (use html or md)`.
    pub fn message(&self) -> (r: String)
        ensures
            r@ == "unknown format: "@ + self.0@ + " (use html or md)"@,
    {
        let mut s = owned("unknown format: ");
        s.append(self.0.as_str());
        s.append(" (use html or md)");
        s
    }
}

/// Everything an exporter needs: the document, its nodes and relations and
/// the branch the exported revision is on.
pub struct ExportInput<'a> {
    pub doc: &'a Document,
    pub nodes: &'a [Node],
    pub relations: &'a [Relation],
    pub branch: Option<&'a str>,
}

/// `#` repeated `k` times.
pub open spec fn hashes(k: nat) -> Seq<char>
    decreases k,
{
    if k == 0 { Seq::empty() } else { hashes((k - 1) as nat) + "#"@ }
}

/// One more `#` than the depth, at most six.
pub open spec fn heading_marks(depth: nat) -> Seq<char> {
    hashes(if depth + 1 > 6 { 6 } else { (depth + 1) as nat })
}

pub open spec fn strip_cr(x: Seq<char>) -> Seq<char> {
    if x.len() > 0 && x.last() == '\r' { x.drop_last() } else { x }
}

pub open spec fn is_newline() -> spec_fn(char) -> bool {
    |c: char| c == '\n'
}

/// `str::lines`: split at `\n`, dropping a `\r` before it; a final line
/// ending adds no empty line.
pub open spec fn lines_of(s: Seq<char>) -> Seq<Seq<char>>
    decreases s.len(),
{
    if s.len() == 0 {
        Seq::empty()
    } else {
        let p = first_pos(s, is_newline());
        if p < 0 {
            seq![s]
        } else {
            proof {
                lemma_first_pos(s, is_newline());
            }
            seq![strip_cr(s.take(p))] + lines_of(s.skip(p + 1))
        }
    }
}

/// `> line` for each line.
pub open spec fn quoted(lines: Seq<Seq<char>>) -> Seq<char>
    decreases lines.len(),
{
    if lines.len() == 0 { Seq::empty() } else { "> "@ + lines[0] + "\n"@ + quoted(lines.drop_first()) }
}

/// A paragraph of `c` when it is not empty.
pub open spec fn para(c: Seq<char>) -> Seq<char> {
    if c.len() > 0 { c + "\n\n"@ } else { Seq::empty() }
}

/// `> **Label** — text`.
pub open spec fn callout(label: Seq<char>, c: Seq<char>) -> Seq<char> {
    "> **"@ + label + "** \u{2014} "@ + c + "\n\n"@
}

/// The Markdown of node `n` alone, at `depth`.
pub open spec fn md_body(n: NodeV, depth: nat) -> Seq<char> {
    let c = trim(n.content);
    let h = heading_marks(depth);
    match n.kind {
        NodeKind::Section => if c.len() > 0 { h + " "@ + c + "\n\n"@ } else { Seq::empty() },
        NodeKind::Heading => h + " "@ + c + "\n\n"@,
        NodeKind::Paragraph => para(c),
        NodeKind::Code => "```\n"@ + c + "\n```\n\n"@,
        NodeKind::Blockquote => quoted(lines_of(c)) + "\n"@,
        NodeKind::List | NodeKind::ListItem => "- "@ + c + "\n"@,
        NodeKind::Table | NodeKind::TableRow | NodeKind::TableCell => "| "@ + c + " |\n"@,
        NodeKind::Link => "["@ + c + "]("@ + attr_or(n, "href"@, Seq::empty()) + ")\n"@,
        NodeKind::Image => "!["@ + c + "]("@ + attr_or(n, "src"@, n.content) + ")\n"@,
        NodeKind::Diagram => "```mermaid\n"@ + c + "\n```\n"@,
        NodeKind::CodeRef => "**`"@ + attr_or(n, "symbol"@, Seq::empty()) + "`** in `"@ + attr_or(n, "file"@, Seq::empty())
            + "`\n"@ + if c.len() > 0 { "\n"@ + c + "\n\n"@ } else { Seq::empty() },
        NodeKind::Requirement => callout("Requirement"@, c),
        NodeKind::Decision => callout("Decision"@, c),
        NodeKind::Problem => callout("Problem"@, c),
        NodeKind::Solution => callout("Solution"@, c),
        NodeKind::Reference => "[ref]("@ + attr_or(n, "target"@, Seq::empty()) + ")\n"@,
        NodeKind::Details | NodeKind::Summary | NodeKind::Generic => para(c),
    }
}

pub open spec fn md_relation_items(es: Seq<RelEntryV>) -> Seq<char>
    decreases es.len(),
{
    if es.len() == 0 {
        Seq::empty()
    } else {
        let e = es.last();
        md_relation_items(es.drop_last()) + "- "@ + arrow(e.outgoing) + " `"@ + e.kind + "` ["@ + e.label + "](#"@
            + e.other + ")\n"@
    }
}

/// The relation list of node `n`; nothing when it has none.
pub open spec fn md_relations(all: Seq<NodeV>, rels: Seq<RelationV>, n: NodeV) -> Seq<char> {
    let es = rel_entries(rels, all, n.id);
    if es.len() == 0 { Seq::empty() } else { "**Relations**\n"@ + md_relation_items(es) + "\n"@ }
}

/// Node `n` at `depth`, its relations, then its children, following at
/// most `fuel` more levels.
pub open spec fn md_node(all: Seq<NodeV>, rels: Seq<RelationV>, n: NodeV, depth: nat, fuel: nat) -> Seq<char>
    decreases fuel, 0nat,
{
    md_body(n, depth) + md_relations(all, rels, n) + if fuel == 0 {
        Seq::empty()
    } else {
        md_kids(all, rels, children_spec(all, Some(n.id)), depth + 1, (fuel - 1) as nat)
    }
}

pub open spec fn md_kids(all: Seq<NodeV>, rels: Seq<RelationV>, kids: Seq<NodeV>, depth: nat, fuel: nat) -> Seq<char>
    decreases fuel, kids.len(),
{
    if kids.len() == 0 {
        Seq::empty()
    } else {
        md_kids(all, rels, kids.drop_last(), depth, fuel) + md_node(all, rels, kids.last(), depth, fuel)
    }
}

/// The whole Markdown document: the title, then the top node's tree.
pub open spec fn markdown_spec(doc: DocumentV, all: Seq<NodeV>, rels: Seq<RelationV>) -> Seq<char> {
    "# "@ + doc.title + "\n\n"@ + match top_spec(all, doc.root_node) {
        Some(root) => md_node(all, rels, root, 1, all.len()),
        None => Seq::empty(),
    }
}

pub proof fn lemma_lines_step(c: Seq<char>, start: int, idx: int)
    requires
        0 <= start <= idx < c.len(),
        c[idx] == '\n',
        forall|j: int| start <= j < idx ==> c[j] != '\n',
    ensures
        quoted(lines_of(c.skip(start))) == "> "@ + strip_cr(c.subrange(start, idx)) + "\n"@ + quoted(lines_of(c.skip(idx + 1))),
{
    let t = c.skip(start);
    assert forall|j: int| 0 <= j < idx - start implies !is_newline()(#[trigger] t[j]) by {
        assert(t[j] == c[start + j]);
    }
    assert(t[idx - start] == c[idx]);
    lemma_first_pos_at(t, is_newline(), idx - start);
    assert(t.take(idx - start) =~= c.subrange(start, idx));
    assert(t.skip(idx - start + 1) =~= c.skip(idx + 1));
    let ls = lines_of(t);
    assert(ls == seq![strip_cr(c.subrange(start, idx))] + lines_of(c.skip(idx + 1)));
    assert(ls.drop_first() =~= lines_of(c.skip(idx + 1)));
}

pub proof fn lemma_lines_last(c: Seq<char>, start: int)
    requires
        0 <= start <= c.len(),
        forall|j: int| start <= j < c.len() ==> c[j] != '\n',
    ensures
        quoted(lines_of(c.skip(start))) == if start < c.len() { "> "@ + c.skip(start) + "\n"@ } else { Seq::<char>::empty() },
{
    let t = c.skip(start);
    lemma_first_pos(t, is_newline());
    if start < c.len() {
        assert forall|j: int| 0 <= j < t.len() implies !is_newline()(#[trigger] t[j]) by {
            assert(t[j] == c[start + j]);
        }
        assert(first_pos(t, is_newline()) < 0);
        assert(lines_of(t) == seq![t]);
        assert(seq![t].drop_first() =~= Seq::<Seq<char>>::empty());
        assert(quoted(Seq::<Seq<char>>::empty()) == Seq::<char>::empty());
        assert(quoted(seq![t]) =~= "> "@ + t + "\n"@);
    } else {
        assert(t =~= Seq::<char>::empty());
    }
}

/// Append `> line` for each line of `c`.
fn push_quoted(out: &mut String, c: &str)
    ensures
        final(out)@ == old(out)@ + quoted(lines_of(c@)),
{
    let ghost o0 = out@;
    let n = c.unicode_len();
    let mut start: usize = 0;
    let mut idx: usize = 0;
    assert(c@.skip(0) =~= c@);
    for ch in it: c.chars()
        invariant
            it.seq() == c@,
            n == c@.len(),
            idx == it.index@,
            idx <= n,
            start <= idx,
            forall|j: int| start <= j < idx ==> c@[j] != '\n',
            out@ + quoted(lines_of(c@.skip(start as int))) == o0 + quoted(lines_of(c@)),
    {
        assert(c@[idx as int] == ch);
        if ch == '\n' {
            proof {
                lemma_lines_step(c@, start as int, idx as int);
            }
            let ghost before = out@;
            let mut end = idx;
            if end > start && c.get_char(end - 1) == '\r' {
                end = end - 1;
            }
            let line = c.substring_char(start, end);
            assert(line@ == strip_cr(c@.subrange(start as int, idx as int))) by {
                if idx > start && c@[idx - 1] == '\r' {
                    assert(c@.subrange(start as int, idx as int).drop_last() =~= c@.subrange(start as int, idx - 1));
                }
            }
            out.append("> ");
            out.append(line);
            out.append("\n");
            assert(out@ + quoted(lines_of(c@.skip(idx + 1))) =~= o0 + quoted(lines_of(c@)));
            start = idx + 1;
        }
        idx = idx + 1;
    }
    proof {
        lemma_lines_last(c@, start as int);
    }
    if start < idx {
        let rest = c.substring_char(start, idx);
        assert(rest@ =~= c@.skip(start as int));
        out.append("> ");
        out.append(rest);
        out.append("\n");
    }
    assert(out@ =~= o0 + quoted(lines_of(c@)));
}

fn marks_string(depth: usize) -> (r: String)
    ensures
        r@ == heading_marks(depth as nat),
{
    let k: usize = if depth >= 5 { 6 } else { depth + 1 };
    let mut s = String::new();
    let mut i: usize = 0;
    while i < k
        invariant
            i <= k,
            s@ == hashes(i as nat),
        decreases k - i,
    {
        s.append("#");
        i = i + 1;
    }
    s
}

fn attr_text(n: &Node, k: &str) -> (r: String)
    ensures
        r@ == attr_or(n@, k@, Seq::empty()),
{
    match attrs_get(&n.attributes, k) {
        Some(v) => v,
        None => String::new(),
    }
}

fn push_para(out: &mut String, c: &str)
    ensures
        final(out)@ == old(out)@ + para(c@),
{
    if c.unicode_len() > 0 {
        out.append(c);
        out.append("\n\n");
    }
}

fn push_callout(out: &mut String, label: &str, c: &str)
    ensures
        final(out)@ == old(out)@ + callout(label@, c@),
{
    let ghost o0 = out@;
    out.append("> **");
    out.append(label);
    out.append("** \u{2014} ");
    out.append(c);
    out.append("\n\n");
    assert(out@ =~= o0 + callout(label@, c@));
}

/// Append the Markdown of node `n` alone.
fn push_md_body(out: &mut String, n: &Node, depth: usize)
    ensures
        final(out)@ == old(out)@ + md_body(n@, depth as nat),
{
    let ghost o0 = out@;
    let c_s = trimmed(n.content.as_str());
    let c = c_s.as_str();
    match n.kind {
        NodeKind::Section => {
            if c.unicode_len() > 0 {
                out.append(marks_string(depth).as_str());
                out.append(" ");
                out.append(c);
                out.append("\n\n");
            }
            assert(out@ =~= o0 + md_body(n@, depth as nat));
        },
        NodeKind::Heading => {
            out.append(marks_string(depth).as_str());
            out.append(" ");
            out.append(c);
            out.append("\n\n");
            assert(out@ =~= o0 + md_body(n@, depth as nat));
        },
        NodeKind::Paragraph => push_para(out, c),
        NodeKind::Code => {
            out.append("```\n");
            out.append(c);
            out.append("\n```\n\n");
            assert(out@ =~= o0 + md_body(n@, depth as nat));
        },
        NodeKind::Blockquote => {
            push_quoted(out, c);
            out.append("\n");
            assert(out@ =~= o0 + md_body(n@, depth as nat));
        },
        NodeKind::List | NodeKind::ListItem => {
            out.append("- ");
            out.append(c);
            out.append("\n");
            assert(out@ =~= o0 + md_body(n@, depth as nat));
        },
        NodeKind::Table | NodeKind::TableRow | NodeKind::TableCell => {
            out.append("| ");
            out.append(c);
            out.append(" |\n");
            assert(out@ =~= o0 + md_body(n@, depth as nat));
        },
        NodeKind::Link => {
            let href = attr_text(n, "href");
            out.append("[");
            out.append(c);
            out.append("](");
            out.append(href.as_str());
            out.append(")\n");
            assert(out@ =~= o0 + md_body(n@, depth as nat));
        },
        NodeKind::Image => {
            let src = match attrs_get(&n.attributes, "src") {
                Some(v) => v,
                None => n.content.clone(),
            };
            out.append("![");
            out.append(c);
            out.append("](");
            out.append(src.as_str());
            out.append(")\n");
            assert(out@ =~= o0 + md_body(n@, depth as nat));
        },
        NodeKind::Diagram => {
            out.append("```mermaid\n");
            out.append(c);
            out.append("\n```\n");
            assert(out@ =~= o0 + md_body(n@, depth as nat));
        },
        NodeKind::CodeRef => {
            let file = attr_text(n, "file");
            let symbol = attr_text(n, "symbol");
            out.append("**`");
            out.append(symbol.as_str());
            out.append("`** in `");
            out.append(file.as_str());
            out.append("`\n");
            if c.unicode_len() > 0 {
                out.append("\n");
                out.append(c);
                out.append("\n\n");
            }
            assert(out@ =~= o0 + md_body(n@, depth as nat));
        },
        NodeKind::Requirement => push_callout(out, "Requirement", c),
        NodeKind::Decision => push_callout(out, "Decision", c),
        NodeKind::Problem => push_callout(out, "Problem", c),
        NodeKind::Solution => push_callout(out, "Solution", c),
        NodeKind::Reference => {
            let target = attr_text(n, "target");
            out.append("[ref](");
            out.append(target.as_str());
            out.append(")\n");
            assert(out@ =~= o0 + md_body(n@, depth as nat));
        },
        NodeKind::Details | NodeKind::Summary | NodeKind::Generic => push_para(out, c),
    }
    assert(out@ =~= o0 + md_body(n@, depth as nat));
}

/// Append the relation list of `n`.
fn push_md_relations(out: &mut String, all: &Vec<Node>, rels: &Vec<Relation>, n: &Node)
    ensures
        final(out)@ == old(out)@ + md_relations(nodes_view(all@), rels@.map_values(|x: Relation| x@), n@),
{
    let es = relation_entries(rels, all, n.id.as_str());
    let ghost ev = entries_view(es@);
    if es.len() == 0 {
        assert(out@ =~= old(out)@ + md_relations(nodes_view(all@), rels@.map_values(|x: Relation| x@), n@));
        return;
    }
    let ghost o0 = out@;
    out.append("**Relations**\n");
    let ghost o1 = out@;
    let mut i: usize = 0;
    while i < es.len()
        invariant
            i <= es@.len(),
            ev == entries_view(es@),
            out@ == o1 + md_relation_items(ev.take(i as int)),
        decreases es@.len() - i,
    {
        let e = &es[i];
        proof {
            assert(ev.take(i + 1).drop_last() =~= ev.take(i as int));
            assert(ev.take(i + 1).last() == e@);
        }
        out.append("- ");
        if e.outgoing {
            out.append("\u{2192}");
        } else {
            out.append("\u{2190}");
        }
        out.append(" `");
        out.append(e.kind.as_str());
        out.append("` [");
        out.append(e.label.as_str());
        out.append("](#");
        out.append(e.other.as_str());
        out.append(")\n");
        assert(out@ =~= o1 + md_relation_items(ev.take(i + 1)));
        i = i + 1;
    }
    assert(ev.take(ev.len() as int) =~= ev);
    out.append("\n");
    assert(out@ =~= o0 + md_relations(nodes_view(all@), rels@.map_values(|x: Relation| x@), n@));
}

/// Append node `n` and its subtree (see `md_node`).
fn emit_md(out: &mut String, all: &Vec<Node>, rels: &Vec<Relation>, n: &Node, depth: usize, fuel: usize)
    requires
        depth + fuel <= usize::MAX,
    ensures
        final(out)@ == old(out)@ + md_node(nodes_view(all@), rels@.map_values(|x: Relation| x@), n@, depth as nat, fuel as nat),
    decreases fuel, 1nat,
{
    let ghost o0 = out@;
    push_md_body(out, n, depth);
    push_md_relations(out, all, rels, n);
    let ghost o1 = out@;
    if fuel > 0 {
        let kids = children_of(all, Some(n.id.as_str()));
        let ghost kv = nodes_view(kids@);
        let mut i: usize = 0;
        while i < kids.len()
            invariant
                i <= kids@.len(),
                kv == nodes_view(kids@),
                depth + fuel <= usize::MAX,
                fuel > 0,
                out@ == o1 + md_kids(nodes_view(all@), rels@.map_values(|x: Relation| x@), kv.take(i as int), (depth + 1) as nat, (fuel - 1) as nat),
            decreases kids@.len() - i,
        {
            proof {
                assert(kv.take(i + 1).drop_last() =~= kv.take(i as int));
                assert(kv.take(i + 1).last() == kids@[i as int]@);
            }
            emit_md(out, all, rels, &kids[i], depth + 1, fuel - 1);
            assert(out@ =~= o1 + md_kids(nodes_view(all@), rels@.map_values(|x: Relation| x@), kv.take(i + 1), (depth + 1) as nat, (fuel - 1) as nat));
            i = i + 1;
        }
        assert(kv.take(kv.len() as int) =~= kv);
    }
    assert(out@ =~= o0 + md_node(nodes_view(all@), rels@.map_values(|x: Relation| x@), n@, depth as nat, fuel as nat));
}

/// Render a document as Markdown: the title as a level-one heading, then
/// the top node's tree, each node followed by its relations. Lossy: the
/// semantic kinds degrade to quotes and paragraphs.
pub fn render_markdown(doc: &Document, nodes: &[Node], relations: &[Relation]) -> (r: String)
    requires
        nodes@.len() < usize::MAX,
    ensures
        r@ == markdown_spec(doc@, nodes_view(nodes@), relations@.map_values(|x: Relation| x@)),
{
    let all = crate::render::node_vec(nodes);
    let rels = crate::render::relation_vec(relations);
    let mut out = owned("# ");
    out.append(doc.title.as_str());
    out.append("\n\n");
    let ghost o1 = out@;
    match top_node(&all, doc.root_node.as_str()) {
        Some(root) => emit_md(&mut out, &all, &rels, &root, 1, all.len()),
        None => {},
    }
    assert(out@ =~= markdown_spec(doc@, nodes_view(nodes@), relations@.map_values(|x: Relation| x@)));
    out
}

/// What exporting `input` in format `fmt` gives.
pub open spec fn export_spec(fmt: ExportFormat, doc: DocumentV, nodes: Seq<NodeV>, rels: Seq<RelationV>, branch: Option<Seq<char>>) -> Seq<char> {
    match fmt {
        ExportFormat::Html => render_spec(doc, nodes, rels, branch),
        ExportFormat::Markdown => markdown_spec(doc, nodes, rels),
    }
}

pub open spec fn branch_view(b: Option<&str>) -> Option<Seq<char>> {
    match b {
        Some(x) => Some(x@),
        None => None,
    }
}

/// An export format's implementation.
pub trait Exporter {
    /// The format this exporter writes.
    spec fn format_spec(&self) -> ExportFormat;

    fn format(&self) -> (r: ExportFormat)
        ensures
            r == self.format_spec(),
    ;

    fn export(&self, input: &ExportInput) -> (r: String)
        requires
            input.nodes@.len() < usize::MAX,
        ensures
            r@ == export_spec(self.format_spec(), input.doc@, nodes_view(input.nodes@), input.relations@.map_values(|x: Relation| x@), branch_view(input.branch)),
    ;
}

/// HTML, through the renderer.
pub struct HtmlExporter;

/// Markdown.
pub struct MarkdownExporter;

impl Exporter for HtmlExporter {
    open spec fn format_spec(&self) -> ExportFormat {
        ExportFormat::Html
    }

    fn format(&self) -> (r: ExportFormat) {
        ExportFormat::Html
    }

    fn export(&self, input: &ExportInput) -> (r: String) {
        render_html(input.doc, input.nodes, input.relations, input.branch)
    }
}

impl Exporter for MarkdownExporter {
    open spec fn format_spec(&self) -> ExportFormat {
        ExportFormat::Markdown
    }

    fn format(&self) -> (r: ExportFormat) {
        ExportFormat::Markdown
    }

    fn export(&self, input: &ExportInput) -> (r: String) {
        render_markdown(input.doc, input.nodes, input.relations)
    }
}

/// One of the bundled exporters, chosen by format.
pub enum FormatExporter {
    Html(HtmlExporter),
    Markdown(MarkdownExporter),
}

impl Exporter for FormatExporter {
    open spec fn format_spec(&self) -> ExportFormat {
        match self {
            FormatExporter::Html(_) => ExportFormat::Html,
            FormatExporter::Markdown(_) => ExportFormat::Markdown,
        }
    }

    fn format(&self) -> (r: ExportFormat) {
        match self {
            FormatExporter::Html(e) => e.format(),
            FormatExporter::Markdown(e) => e.format(),
        }
    }

    fn export(&self, input: &ExportInput) -> (r: String) {
        match self {
            FormatExporter::Html(e) => e.export(input),
            FormatExporter::Markdown(e) => e.export(input),
        }
    }
}

/// The exporter that handles `fmt`.
pub fn exporter_for(fmt: ExportFormat) -> (r: FormatExporter)
    ensures
        r.format_spec() == fmt,
{
    match fmt {
        ExportFormat::Html => FormatExporter::Html(HtmlExporter),
        ExportFormat::Markdown => FormatExporter::Markdown(MarkdownExporter),
    }
}

/// Export `input` in format `fmt`, through the exporter for that format.
pub fn export(fmt: ExportFormat, input: &ExportInput) -> (r: String)
    requires
        input.nodes@.len() < usize::MAX,
    ensures
        r@ == export_spec(fmt, input.doc@, nodes_view(input.nodes@), input.relations@.map_values(|x: Relation| x@), branch_view(input.branch)),
{
    exporter_for(fmt).export(input)
}

/// Export HTML without relations.
pub fn export_html(doc: &Document, nodes: &[Node], branch: Option<&str>) -> (r: String)
    requires
        nodes@.len() < usize::MAX,
    ensures
        r@ == render_spec(doc@, nodes_view(nodes@), Seq::empty(), branch_view(branch)),
{
    let none: Vec<Relation> = Vec::new();
    let input = ExportInput { doc, nodes, relations: none.as_slice(), branch };
    let r = export(ExportFormat::Html, &input);
    assert(none@.map_values(|x: Relation| x@) =~= Seq::<RelationV>::empty());
    r
}

/// Export Markdown without relations.
pub fn export_markdown(doc: &Document, nodes: &[Node]) -> (r: String)
    requires
        nodes@.len() < usize::MAX,
    ensures
        r@ == markdown_spec(doc@, nodes_view(nodes@), Seq::empty()),
{
    let none: Vec<Relation> = Vec::new();
    let input = ExportInput { doc, nodes, relations: none.as_slice(), branch: None };
    let r = export(ExportFormat::Markdown, &input);
    assert(none@.map_values(|x: Relation| x@) =~= Seq::<RelationV>::empty());
    r
}

} // verus!
