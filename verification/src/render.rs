//! HTML rendering of a document: a page with a nested table of contents,
//! one element per node and an aside listing each node's relations.

use vstd::prelude::*;
use crate::attrs::{attrs_get, entry_get};
use crate::model::{Document, DocumentV, Relation, RelationV};
use crate::node::{Node, NodeKind, NodeV};
use crate::store::nodes_view;
use crate::text::{decimal, decimal_string, owned, push_char};
use crate::tree::{
    children_of, children_spec, entries_view, rel_entries, relation_entries, top_node, top_spec,
    RelEntry, RelEntryV,
};

verus! {

/// The style sheet of a rendered page.
pub const PAGE_STYLE: &'static str = "  <style>:root{color-scheme:light dark}\
    body{font-family:ui-sans-serif,system-ui,sans-serif;margin:1.5rem auto;max-width:48rem;line-height:1.55;padding:0 1rem}\
    .aidoc-toc{background:#f5f5f5;border:1px solid #ddd;border-radius:6px;padding:.5em 1em;margin:0 0 1.5em 0}\
    .aidoc-toc summary{font-weight:600;cursor:pointer;padding:.25em 0}\
    .aidoc-toc ul{margin:.25em 0;padding-left:1.25em;list-style:none}\
    .aidoc-toc li{margin:.15em 0}\
    .aidoc-toc a{color:#444;text-decoration:none}\
    .aidoc-toc a:hover{text-decoration:underline;color:#2563eb}\
    .aidoc-diagram{font-family:monospace;background:#f8f8f8;padding:.5em;border-radius:4px;overflow:auto}\
    .aidoc-branch{background:#eef;border-left:4px solid #88c;padding:.5em 1em;margin:0 0 1em 0;font-family:monospace}\
    .aidoc-branch::before{content:\"branch: \"}\
    .aidoc-relations{font-size:.85em;color:#666;border-left:2px solid #ddd;padding:.25em .75em;margin:.4em 0 1em}\
    .aidoc-relations ul{display:flex;flex-wrap:wrap;gap:.3em 1em;list-style:none;margin:.2em 0;padding:0}\
    .aidoc-relations a{color:#2563eb;text-decoration:none}\
    .aidoc-relations a:hover{text-decoration:underline}\
    h1,h2,h3,h4,h5,h6{margin-top:1.6em}\
    pre{background:#f0f0f0;padding:.75em 1em;border-radius:4px;overflow:auto}\
    blockquote{border-left:4px solid #ccc;margin:0;padding-left:1em;color:#555}\
    [data-aidoc-type=\"requirement\"]{border-left:4px solid #2563eb;background:rgba(37,99,235,.07);padding:.5em 1em}\
    [data-aidoc-type=\"decision\"]{border-left:4px solid #16a34a;background:rgba(22,163,74,.07);padding:.5em 1em}\
    [data-aidoc-type=\"problem\"]{border-left:4px solid #dc2626;background:rgba(220,38,38,.07);padding:.5em 1em}\
    [data-aidoc-type=\"solution\"]{border-left:4px solid #f59e0b;background:rgba(245,158,11,.07);padding:.5em 1em}\
    @media (prefers-color-scheme: dark){body{color:#e6e6e6}\
    .aidoc-toc{background:#1f1f1f;border-color:#333}\
    .aidoc-toc a{color:#bbb}\
    .aidoc-toc a:hover{color:#60a5fa}\
    .aidoc-diagram{background:#262626}\
    .aidoc-branch{background:#2a2f44;border-left-color:#5b6dab}\
    .aidoc-relations{color:#aaa;border-left-color:#444}\
    .aidoc-relations a{color:#60a5fa}\
    pre{background:#1e1e1e;color:#d4d4d4}\
    blockquote{border-left-color:#444;color:#aaa}\
    [data-aidoc-type=\"requirement\"]{border-left-color:#3b82f6;background:rgba(59,130,246,.12)}\
    [data-aidoc-type=\"decision\"]{border-left-color:#22c55e;background:rgba(34,197,94,.12)}\
    [data-aidoc-type=\"problem\"]{border-left-color:#ef4444;background:rgba(239,68,68,.12)}\
    [data-aidoc-type=\"solution\"]{border-left-color:#f59e0b;background:rgba(245,158,11,.12)}\
    }</style>\n";
/// What `c` becomes in HTML text or attribute values.
pub open spec fn escape_char(c: char) -> Seq<char> {
    if c == '<' {
        "&lt;"@
    } else if c == '>' {
        "&gt;"@
    } else if c == '&' {
        "&amp;"@
    } else if c == '"' {
        "&quot;"@
    } else if c == '\'' {
        "&#39;"@
    } else {
        seq![c]
    }
}

/// `s` with `<`, `>`, `&`, `"` and `'` written as entities.
pub open spec fn escape_spec(s: Seq<char>) -> Seq<char>
    decreases s.len(),
{
    if s.len() == 0 { Seq::empty() } else { escape_spec(s.drop_last()) + escape_char(s.last()) }
}

/// Two spaces per level.
pub open spec fn indent_of(depth: nat) -> Seq<char>
    decreases depth,
{
    if depth == 0 { Seq::empty() } else { indent_of((depth - 1) as nat) + "  "@ }
}

pub open spec fn id_attr(n: NodeV) -> Seq<char> {
    " id=\""@ + escape_spec(n.id) + "\""@
}

pub open spec fn sem_attr(n: NodeV) -> Seq<char> {
    match n.semantic_type {
        Some(s) => " data-aidoc-type=\""@ + escape_spec(s) + "\""@,
        None => Seq::empty(),
    }
}

/// Attribute `k` of `n`, or `default`.
pub open spec fn attr_or(n: NodeV, k: Seq<char>, default: Seq<char>) -> Seq<char> {
    match entry_get(n.attributes, k) {
        Some(v) => v,
        None => default,
    }
}

/// Headings one level below their depth, from `h2` to `h6`.
pub open spec fn heading_level(depth: nat) -> nat {
    if depth + 1 < 2 { 2 } else if depth + 1 > 6 { 6 } else { (depth + 1) as nat }
}

/// An element whose content is the node's escaped content:
/// `<tag id="..">content</tag>`.
pub open spec fn leaf(ind: Seq<char>, tag: Seq<char>, n: NodeV) -> Seq<char> {
    ind + "<"@ + tag + id_attr(n) + ">"@ + escape_spec(n.content) + "</"@ + tag + ">\n"@
}

/// A semantic block: the tag around one paragraph of content.
pub open spec fn semantic_block(ind: Seq<char>, tag: Seq<char>, n: NodeV) -> Seq<char> {
    ind + "<"@ + tag + id_attr(n) + ">\n"@ + ind + "  <p>"@ + escape_spec(n.content) + "</p>\n"@ + ind + "</"@ + tag + ">\n"@
}

/// A container: the tag around the children.
pub open spec fn container(ind: Seq<char>, tag: Seq<char>, n: NodeV, kids: Seq<char>) -> Seq<char> {
    ind + "<"@ + tag + id_attr(n) + ">\n"@ + kids + ind + "</"@ + tag + ">\n"@
}

/// The paragraph of content a section or code reference carries when it has any.
pub open spec fn content_para(ind: Seq<char>, n: NodeV) -> Seq<char> {
    if n.content.len() > 0 { ind + "  <p>"@ + escape_spec(n.content) + "</p>\n"@ } else { Seq::empty() }
}

pub open spec fn root_heading_html(ind: Seq<char>, n: NodeV, kids: Seq<char>) -> Seq<char> {
    ind + "<h1"@ + id_attr(n) + ">"@ + escape_spec(n.content) + "</h1>\n"@ + kids
}

pub open spec fn section_html(ind: Seq<char>, n: NodeV, kids: Seq<char>) -> Seq<char> {
    ind + "<section"@ + id_attr(n) + sem_attr(n) + ">\n"@ + content_para(ind, n) + kids + ind + "</section>\n"@
}

pub open spec fn code_html(ind: Seq<char>, n: NodeV) -> Seq<char> {
    ind + "<pre"@ + id_attr(n) + "><code>"@ + escape_spec(n.content) + "</code></pre>\n"@
}

pub open spec fn row_html(ind: Seq<char>, n: NodeV, kids: Seq<char>) -> Seq<char> {
    ind + "<tr"@ + id_attr(n) + ">"@ + kids + ind + "</tr>\n"@
}

pub open spec fn link_html(ind: Seq<char>, n: NodeV) -> Seq<char> {
    ind + "<a href=\""@ + escape_spec(attr_or(n, "href"@, Seq::empty())) + "\""@ + id_attr(n) + ">"@
        + escape_spec(n.content) + "</a>\n"@
}

pub open spec fn image_html(ind: Seq<char>, n: NodeV) -> Seq<char> {
    ind + "<img src=\""@ + escape_spec(attr_or(n, "src"@, n.content)) + "\" alt=\""@ + escape_spec(n.content) + "\""@
        + id_attr(n) + ">\n"@
}

pub open spec fn diagram_html(ind: Seq<char>, n: NodeV) -> Seq<char> {
    ind + "<diagram"@ + id_attr(n) + sem_attr(n) + " engine=\""@ + escape_spec(attr_or(n, "engine"@, "mermaid"@))
        + "\" type=\""@ + escape_spec(attr_or(n, "type"@, "flowchart"@)) + "\">\n"@ + ind
        + "  <pre class=\"aidoc-diagram\">"@ + escape_spec(n.content) + "</pre>\n"@ + ind + "</diagram>\n"@
}

pub open spec fn code_ref_html(ind: Seq<char>, n: NodeV) -> Seq<char> {
    ind + "<code-ref"@ + id_attr(n) + " file=\""@ + escape_spec(attr_or(n, "file"@, Seq::empty())) + "\" symbol=\""@
        + escape_spec(attr_or(n, "symbol"@, Seq::empty())) + "\">\n"@ + content_para(ind, n) + ind + "</code-ref>\n"@
}

pub open spec fn reference_html(ind: Seq<char>, n: NodeV) -> Seq<char> {
    ind + "<ref"@ + id_attr(n) + " target=\""@ + escape_spec(attr_or(n, "target"@, Seq::empty())) + "\" relation=\""@
        + escape_spec(attr_or(n, "relation"@, Seq::empty())) + "\">"@ + escape_spec(n.content) + "</ref>\n"@
}

/// The element of node `n` at `depth`, around the already rendered children `kids`.
pub open spec fn element_html(n: NodeV, depth: nat, kids: Seq<char>) -> Seq<char> {
    let ind = indent_of(depth);
    match n.kind {
        NodeKind::Section => if depth == 1 { root_heading_html(ind, n, kids) } else { section_html(ind, n, kids) },
        NodeKind::Paragraph => leaf(ind, "p"@, n),
        NodeKind::Heading => leaf(ind, "h"@ + decimal(heading_level(depth)), n),
        NodeKind::Code => code_html(ind, n),
        NodeKind::Blockquote => leaf(ind, "blockquote"@, n),
        NodeKind::List => container(ind, "ul"@, n, kids),
        NodeKind::ListItem => leaf(ind, "li"@, n),
        NodeKind::Table => container(ind, "table"@, n, kids),
        NodeKind::TableRow => row_html(ind, n, kids),
        NodeKind::TableCell => leaf(ind, "td"@, n),
        NodeKind::Link => link_html(ind, n),
        NodeKind::Image => image_html(ind, n),
        NodeKind::Diagram => diagram_html(ind, n),
        NodeKind::CodeRef => code_ref_html(ind, n),
        NodeKind::Requirement => semantic_block(ind, "requirement"@, n),
        NodeKind::Decision => semantic_block(ind, "decision"@, n),
        NodeKind::Problem => semantic_block(ind, "problem"@, n),
        NodeKind::Solution => semantic_block(ind, "solution"@, n),
        NodeKind::Reference => reference_html(ind, n),
        NodeKind::Details => container(ind, "details"@, n, kids),
        NodeKind::Summary => leaf(ind, "summary"@, n),
        NodeKind::Generic => leaf(ind, "div"@, n),
    }
}

pub open spec fn arrow(outgoing: bool) -> Seq<char> {
    if outgoing { "\u{2192}"@ } else { "\u{2190}"@ }
}

/// One list item per relation entry.
pub open spec fn relation_items(es: Seq<RelEntryV>, ind: Seq<char>) -> Seq<char>
    decreases es.len(),
{
    if es.len() == 0 {
        Seq::empty()
    } else {
        let e = es.last();
        relation_items(es.drop_last(), ind) + ind + "  <li><span>"@ + arrow(e.outgoing) + " "@ + escape_spec(e.kind)
            + "</span> <a href=\"#"@ + escape_spec(e.other) + "\">"@ + escape_spec(e.label) + "</a></li>\n"@
    }
}

/// The aside listing the relations of `n`; nothing when it has none.
pub open spec fn relations_html(all: Seq<NodeV>, rels: Seq<RelationV>, n: NodeV, depth: nat) -> Seq<char> {
    let es = rel_entries(rels, all, n.id);
    let ind = indent_of(depth);
    if es.len() == 0 {
        Seq::empty()
    } else {
        ind + "<aside class=\"aidoc-relations\" aria-label=\"Relations for "@ + escape_spec(n.id)
            + "\"><strong>Relations</strong><ul>\n"@ + relation_items(es, ind) + ind + "</ul></aside>\n"@
    }
}

/// Node `n` at `depth` with its subtree, following at most `fuel` more
/// levels of children.
pub open spec fn node_html(all: Seq<NodeV>, rels: Seq<RelationV>, n: NodeV, depth: nat, fuel: nat) -> Seq<char>
    decreases fuel, 0nat,
{
    let kids = if fuel == 0 {
        Seq::empty()
    } else {
        kids_html(all, rels, children_spec(all, Some(n.id)), depth + 1, (fuel - 1) as nat)
    };
    element_html(n, depth, kids) + relations_html(all, rels, n, depth)
}

/// The nodes `kids` one after the other.
pub open spec fn kids_html(all: Seq<NodeV>, rels: Seq<RelationV>, kids: Seq<NodeV>, depth: nat, fuel: nat) -> Seq<char>
    decreases fuel, kids.len(),
{
    if kids.len() == 0 {
        Seq::empty()
    } else {
        kids_html(all, rels, kids.drop_last(), depth, fuel) + node_html(all, rels, kids.last(), depth, fuel)
    }
}

/// Whether child `c` of `p` at `depth` gets a contents entry: sections and
/// headings, but not the root section itself.
pub open spec fn toc_included(c: NodeV, p: NodeV, depth: nat) -> bool {
    (c.kind == NodeKind::Section || c.kind == NodeKind::Heading) && !(depth == 1 && c.id == p.id)
}

pub open spec fn toc_label(c: NodeV) -> Seq<char> {
    if c.content.len() == 0 { c.id } else { c.content }
}

/// The contents entries below `p` at `depth`: a list when some child gets
/// an entry, else just the entries of deeper levels.
pub open spec fn toc_html(all: Seq<NodeV>, p: NodeV, depth: nat, fuel: nat) -> Seq<char>
    decreases fuel, 1nat, 0nat,
{
    let kids = children_spec(all, Some(p.id));
    let buf = toc_items(all, p, kids, depth, fuel);
    if exists|i: int| 0 <= i < kids.len() && toc_included(#[trigger] kids[i], p, depth) {
        "<ul>\n"@ + buf + "</ul>\n"@
    } else {
        buf
    }
}

pub open spec fn toc_items(all: Seq<NodeV>, p: NodeV, kids: Seq<NodeV>, depth: nat, fuel: nat) -> Seq<char>
    decreases fuel, 0nat, kids.len(),
{
    if kids.len() == 0 {
        Seq::empty()
    } else {
        let c = kids.last();
        let sub = if fuel == 0 { Seq::empty() } else { toc_html(all, c, depth + 1, (fuel - 1) as nat) };
        toc_items(all, p, kids.drop_last(), depth, fuel) + if toc_included(c, p, depth) {
            "<li><a href=\"#"@ + escape_spec(c.id) + "\">"@ + escape_spec(toc_label(c)) + "</a>\n"@ + sub + "</li>\n"@
        } else {
            sub
        }
    }
}

/// The whole page.
pub open spec fn render_spec(doc: DocumentV, all: Seq<NodeV>, rels: Seq<RelationV>, branch: Option<Seq<char>>) -> Seq<char> {
    "<!DOCTYPE html>\n<html>\n<head>\n"@ + "  <meta charset=\"utf-8\">\n  <title>"@ + escape_spec(doc.title) + "</title>\n"@
        + PAGE_STYLE@ + "</head>\n<body>\n"@ + match branch {
        Some(b) => "<aside class=\"aidoc-branch\">"@ + escape_spec(b) + "</aside>\n"@,
        None => Seq::empty(),
    } + match top_spec(all, doc.root_node) {
        Some(root) => "<nav class=\"aidoc-toc\" aria-label=\"Table of contents\"><details open><summary>Contents</summary>"@
            + toc_html(all, root, 1, all.len()) + "</details></nav>\n"@ + node_html(all, rels, root, 1, all.len()),
        None => Seq::empty(),
    } + "</body>\n</html>\n"@
}

pub fn escape_one(out: &mut String, c: char)
    ensures
        final(out)@ == old(out)@ + escape_char(c),
{
    if c == '<' {
        out.append("&lt;");
    } else if c == '>' {
        out.append("&gt;");
    } else if c == '&' {
        out.append("&amp;");
    } else if c == '"' {
        out.append("&quot;");
    } else if c == '\'' {
        out.append("&#39;");
    } else {
        let ghost o0 = out@;
        push_char(out, c);
        assert(out@ =~= o0 + seq![c]);
    }
}

/// Append `s` with the HTML special characters written as entities.
pub fn push_escaped(out: &mut String, s: &str)
    ensures
        final(out)@ == old(out)@ + escape_spec(s@),
{
    let ghost o0 = out@;
    for c in it: s.chars()
        invariant
            it.seq() == s@,
            out@ == o0 + escape_spec(s@.take(it.index@ as int)),
    {
        proof {
            assert(s@.take(it.index@ + 1).drop_last() =~= s@.take(it.index@ as int));
            assert(s@.take(it.index@ + 1).last() == c);
        }
        escape_one(out, c);
    }
    assert(s@.take(s@.len() as int) =~= s@);
}

/// `s` with the HTML special characters written as entities.
pub fn escape(s: &str) -> (r: String)
    ensures
        r@ == escape_spec(s@),
{
    let mut buf = String::new();
    push_escaped(&mut buf, s);
    buf
}

/// Append two spaces per level.
#[verifier::spinoff_prover]
fn push_indent(out: &mut String, depth: usize)
    ensures
        final(out)@ == old(out)@ + indent_of(depth as nat),
{
    let ghost o0 = out@;
    let mut i: usize = 0;
    while i < depth
        invariant
            i <= depth,
            out@ == o0 + indent_of(i as nat),
        decreases depth - i,
    {
        out.append("  ");
        i = i + 1;
    }
}

fn indent_string(depth: usize) -> (r: String)
    ensures
        r@ == indent_of(depth as nat),
{
    let mut s = String::new();
    push_indent(&mut s, depth);
    s
}

#[verifier::spinoff_prover]
fn push_id_attr(out: &mut String, n: &Node)
    ensures
        final(out)@ == old(out)@ + id_attr(n@),
{
    out.append(" id=\"");
    push_escaped(out, n.id.as_str());
    out.append("\"");
}

#[verifier::spinoff_prover]
fn push_sem_attr(out: &mut String, n: &Node)
    ensures
        final(out)@ == old(out)@ + sem_attr(n@),
{
    if let Some(st) = &n.semantic_type {
        out.append(" data-aidoc-type=\"");
        push_escaped(out, st.as_str());
        out.append("\"");
    }
}

fn attr_or_default(n: &Node, k: &str, default: &str) -> (r: String)
    ensures
        r@ == attr_or(n@, k@, default@),
{
    match attrs_get(&n.attributes, k) {
        Some(v) => v,
        None => owned(default),
    }
}

#[verifier::spinoff_prover]
fn push_leaf(out: &mut String, ind: &str, tag: &str, n: &Node)
    ensures
        final(out)@ == old(out)@ + leaf(ind@, tag@, n@),
{
    out.append(ind);
    out.append("<");
    out.append(tag);
    push_id_attr(out, n);
    out.append(">");
    push_escaped(out, n.content.as_str());
    out.append("</");
    out.append(tag);
    out.append(">\n");
}

#[verifier::spinoff_prover]
fn push_semantic_block(out: &mut String, ind: &str, tag: &str, n: &Node)
    ensures
        final(out)@ == old(out)@ + semantic_block(ind@, tag@, n@),
{
    out.append(ind);
    out.append("<");
    out.append(tag);
    push_id_attr(out, n);
    out.append(">\n");
    out.append(ind);
    out.append("  <p>");
    push_escaped(out, n.content.as_str());
    out.append("</p>\n");
    out.append(ind);
    out.append("</");
    out.append(tag);
    out.append(">\n");
}

#[verifier::spinoff_prover]
fn push_container(out: &mut String, ind: &str, tag: &str, n: &Node, kids: &str)
    ensures
        final(out)@ == old(out)@ + container(ind@, tag@, n@, kids@),
{
    out.append(ind);
    out.append("<");
    out.append(tag);
    push_id_attr(out, n);
    out.append(">\n");
    out.append(kids);
    out.append(ind);
    out.append("</");
    out.append(tag);
    out.append(">\n");
}

#[verifier::spinoff_prover]
fn push_content_para(out: &mut String, ind: &str, n: &Node)
    ensures
        final(out)@ == old(out)@ + content_para(ind@, n@),
{
    if n.content.unicode_len() > 0 {
        out.append(ind);
        out.append("  <p>");
        push_escaped(out, n.content.as_str());
        out.append("</p>\n");
    }
}

/// Whether nodes of kind `k` show their children.
pub open spec fn shows_children(k: NodeKind) -> bool {
    matches!(k, NodeKind::Section | NodeKind::List | NodeKind::Table | NodeKind::TableRow | NodeKind::Details)
}

#[verifier::spinoff_prover]
fn push_root_heading(out: &mut String, ind: &str, n: &Node, kids: &str)
    ensures
        final(out)@ == old(out)@ + root_heading_html(ind@, n@, kids@),
{
    let ghost o0 = out@;
    out.append(ind);
    out.append("<h1");
    push_id_attr(out, n);
    out.append(">");
    push_escaped(out, n.content.as_str());
    out.append("</h1>\n");
    out.append(kids);
    assert(out@ =~= o0 + root_heading_html(ind@, n@, kids@));
}

#[verifier::spinoff_prover]
fn push_section(out: &mut String, ind: &str, n: &Node, kids: &str)
    ensures
        final(out)@ == old(out)@ + section_html(ind@, n@, kids@),
{
    let ghost o0 = out@;
    out.append(ind);
    out.append("<section");
    push_id_attr(out, n);
    push_sem_attr(out, n);
    out.append(">\n");
    push_content_para(out, ind, n);
    out.append(kids);
    out.append(ind);
    out.append("</section>\n");
    assert(out@ =~= o0 + section_html(ind@, n@, kids@));
}

#[verifier::spinoff_prover]
fn push_code(out: &mut String, ind: &str, n: &Node)
    ensures
        final(out)@ == old(out)@ + code_html(ind@, n@),
{
    let ghost o0 = out@;
    out.append(ind);
    out.append("<pre");
    push_id_attr(out, n);
    out.append("><code>");
    push_escaped(out, n.content.as_str());
    out.append("</code></pre>\n");
    assert(out@ =~= o0 + code_html(ind@, n@));
}

#[verifier::spinoff_prover]
fn push_row(out: &mut String, ind: &str, n: &Node, kids: &str)
    ensures
        final(out)@ == old(out)@ + row_html(ind@, n@, kids@),
{
    let ghost o0 = out@;
    out.append(ind);
    out.append("<tr");
    push_id_attr(out, n);
    out.append(">");
    out.append(kids);
    out.append(ind);
    out.append("</tr>\n");
    assert(out@ =~= o0 + row_html(ind@, n@, kids@));
}

#[verifier::spinoff_prover]
fn push_link(out: &mut String, ind: &str, n: &Node)
    ensures
        final(out)@ == old(out)@ + link_html(ind@, n@),
{
    proof {
        reveal_strlit("");
    }
    let ghost o0 = out@;
    let href = attr_or_default(n, "href", "");
    out.append(ind);
    out.append("<a href=\"");
    push_escaped(out, href.as_str());
    out.append("\"");
    push_id_attr(out, n);
    out.append(">");
    push_escaped(out, n.content.as_str());
    out.append("</a>\n");
    assert(out@ =~= o0 + link_html(ind@, n@));
}

#[verifier::spinoff_prover]
fn push_image(out: &mut String, ind: &str, n: &Node)
    ensures
        final(out)@ == old(out)@ + image_html(ind@, n@),
{
    let ghost o0 = out@;
    let src = match attrs_get(&n.attributes, "src") {
        Some(v) => v,
        None => n.content.clone(),
    };
    out.append(ind);
    out.append("<img src=\"");
    push_escaped(out, src.as_str());
    out.append("\" alt=\"");
    push_escaped(out, n.content.as_str());
    out.append("\"");
    push_id_attr(out, n);
    out.append(">\n");
    assert(out@ =~= o0 + image_html(ind@, n@));
}

#[verifier::spinoff_prover]
fn push_diagram(out: &mut String, ind: &str, n: &Node)
    ensures
        final(out)@ == old(out)@ + diagram_html(ind@, n@),
{
    let ghost o0 = out@;
    let engine = attr_or_default(n, "engine", "mermaid");
    let dtype = attr_or_default(n, "type", "flowchart");
    out.append(ind);
    out.append("<diagram");
    push_id_attr(out, n);
    push_sem_attr(out, n);
    out.append(" engine=\"");
    push_escaped(out, engine.as_str());
    out.append("\" type=\"");
    push_escaped(out, dtype.as_str());
    out.append("\">\n");
    out.append(ind);
    out.append("  <pre class=\"aidoc-diagram\">");
    push_escaped(out, n.content.as_str());
    out.append("</pre>\n");
    out.append(ind);
    out.append("</diagram>\n");
    assert(out@ =~= o0 + diagram_html(ind@, n@));
}

#[verifier::spinoff_prover]
fn push_code_ref(out: &mut String, ind: &str, n: &Node)
    ensures
        final(out)@ == old(out)@ + code_ref_html(ind@, n@),
{
    proof {
        reveal_strlit("");
    }
    let ghost o0 = out@;
    let file = attr_or_default(n, "file", "");
    let symbol = attr_or_default(n, "symbol", "");
    out.append(ind);
    out.append("<code-ref");
    push_id_attr(out, n);
    out.append(" file=\"");
    push_escaped(out, file.as_str());
    out.append("\" symbol=\"");
    push_escaped(out, symbol.as_str());
    out.append("\">\n");
    push_content_para(out, ind, n);
    out.append(ind);
    out.append("</code-ref>\n");
    assert(out@ =~= o0 + code_ref_html(ind@, n@));
}

#[verifier::spinoff_prover]
#[verifier::rlimit(40)]
fn push_reference(out: &mut String, ind: &str, n: &Node)
    ensures
        final(out)@ == old(out)@ + reference_html(ind@, n@),
{
    proof {
        reveal_strlit("");
    }
    let ghost o0 = out@;
    let target = attr_or_default(n, "target", "");
    let relation = attr_or_default(n, "relation", "");
    out.append(ind);
    out.append("<ref");
    push_id_attr(out, n);
    out.append(" target=\"");
    push_escaped(out, target.as_str());
    out.append("\" relation=\"");
    push_escaped(out, relation.as_str());
    out.append("\">");
    push_escaped(out, n.content.as_str());
    out.append("</ref>\n");
    assert(out@ =~= o0 + reference_html(ind@, n@));
}

#[verifier::spinoff_prover]
fn push_element(out: &mut String, n: &Node, depth: usize, kids: &str)
    ensures
        final(out)@ == old(out)@ + element_html(n@, depth as nat, kids@),
{
    let ind_s = indent_string(depth);
    let ind = ind_s.as_str();
    match n.kind {
        NodeKind::Section => {
            if depth == 1 {
                push_root_heading(out, ind, n, kids);
            } else {
                push_section(out, ind, n, kids);
            }
        },
        NodeKind::Paragraph => push_leaf(out, ind, "p", n),
        NodeKind::Heading => {
            let level: usize = if depth < 1 { 2 } else if depth > 5 { 6 } else { depth + 1 };
            let mut tag = owned("h");
            tag.append(decimal_string(level as u64).as_str());
            push_leaf(out, ind, tag.as_str(), n);
        },
        NodeKind::Code => push_code(out, ind, n),
        NodeKind::Blockquote => push_leaf(out, ind, "blockquote", n),
        NodeKind::List => push_container(out, ind, "ul", n, kids),
        NodeKind::ListItem => push_leaf(out, ind, "li", n),
        NodeKind::Table => push_container(out, ind, "table", n, kids),
        NodeKind::TableRow => push_row(out, ind, n, kids),
        NodeKind::TableCell => push_leaf(out, ind, "td", n),
        NodeKind::Link => push_link(out, ind, n),
        NodeKind::Image => push_image(out, ind, n),
        NodeKind::Diagram => push_diagram(out, ind, n),
        NodeKind::CodeRef => push_code_ref(out, ind, n),
        NodeKind::Requirement => push_semantic_block(out, ind, "requirement", n),
        NodeKind::Decision => push_semantic_block(out, ind, "decision", n),
        NodeKind::Problem => push_semantic_block(out, ind, "problem", n),
        NodeKind::Solution => push_semantic_block(out, ind, "solution", n),
        NodeKind::Reference => push_reference(out, ind, n),
        NodeKind::Details => push_container(out, ind, "details", n, kids),
        NodeKind::Summary => push_leaf(out, ind, "summary", n),
        NodeKind::Generic => push_leaf(out, ind, "div", n),
    }
}

#[verifier::spinoff_prover]
fn push_relation_item(out: &mut String, ind: &str, e: &RelEntry)
    ensures
        final(out)@ == old(out)@ + ind@ + "  <li><span>"@ + arrow(e@.outgoing) + " "@ + escape_spec(e@.kind)
            + "</span> <a href=\"#"@ + escape_spec(e@.other) + "\">"@ + escape_spec(e@.label) + "</a></li>\n"@,
{
    let ghost o0 = out@;
    out.append(ind);
    out.append("  <li><span>");
    if e.outgoing {
        out.append("\u{2192}");
    } else {
        out.append("\u{2190}");
    }
    out.append(" ");
    push_escaped(out, e.kind.as_str());
    out.append("</span> <a href=\"#");
    push_escaped(out, e.other.as_str());
    out.append("\">");
    push_escaped(out, e.label.as_str());
    out.append("</a></li>\n");
    assert(out@ =~= o0 + ind@ + "  <li><span>"@ + arrow(e@.outgoing) + " "@ + escape_spec(e@.kind)
        + "</span> <a href=\"#"@ + escape_spec(e@.other) + "\">"@ + escape_spec(e@.label) + "</a></li>\n"@);
}

/// Append the aside listing the relations of `n`.
#[verifier::spinoff_prover]
fn push_relations(out: &mut String, all: &Vec<Node>, rels: &Vec<Relation>, n: &Node, depth: usize)
    ensures
        final(out)@ == old(out)@ + relations_html(nodes_view(all@), rels@.map_values(|x: Relation| x@), n@, depth as nat),
{
    let es = relation_entries(rels, all, n.id.as_str());
    let ghost ev = entries_view(es@);
    if es.len() == 0 {
        assert(out@ =~= old(out)@ + relations_html(nodes_view(all@), rels@.map_values(|x: Relation| x@), n@, depth as nat));
        return;
    }
    let ind_s = indent_string(depth);
    let ind = ind_s.as_str();
    let ghost o0 = out@;
    out.append(ind);
    out.append("<aside class=\"aidoc-relations\" aria-label=\"Relations for ");
    push_escaped(out, n.id.as_str());
    out.append("\"><strong>Relations</strong><ul>\n");
    let ghost o1 = out@;
    let mut i: usize = 0;
    while i < es.len()
        invariant
            i <= es@.len(),
            ev == entries_view(es@),
            out@ == o1 + relation_items(ev.take(i as int), ind@),
        decreases es@.len() - i,
    {
        proof {
            assert(ev.take(i + 1).drop_last() =~= ev.take(i as int));
            assert(ev.take(i + 1).last() == es@[i as int]@);
        }
        let ghost before = out@;
        push_relation_item(out, ind, &es[i]);
        assert(out@ =~= o1 + relation_items(ev.take(i + 1), ind@));
        i = i + 1;
    }
    assert(ev.take(ev.len() as int) =~= ev);
    out.append(ind);
    out.append("</ul></aside>\n");
    assert(out@ =~= o0 + relations_html(nodes_view(all@), rels@.map_values(|x: Relation| x@), n@, depth as nat));
}

/// Append node `n` at `depth` with its subtree (see `node_html`).
fn emit_node(out: &mut String, all: &Vec<Node>, rels: &Vec<Relation>, n: &Node, depth: usize, fuel: usize)
    requires
        depth + fuel <= usize::MAX,
    ensures
        final(out)@ == old(out)@ + node_html(nodes_view(all@), rels@.map_values(|x: Relation| x@), n@, depth as nat, fuel as nat),
    decreases fuel, 0nat,
{
    let mut kids = String::new();
    if fuel > 0 && (matches!(n.kind, NodeKind::Section | NodeKind::List | NodeKind::Table | NodeKind::TableRow | NodeKind::Details)) {
        let children = children_of(all, Some(n.id.as_str()));
        emit_kids(&mut kids, all, rels, &children, depth + 1, fuel - 1);
    }
    push_element(out, n, depth, kids.as_str());
    push_relations(out, all, rels, n, depth);
}

/// Append the nodes `kids` one after the other.
fn emit_kids(out: &mut String, all: &Vec<Node>, rels: &Vec<Relation>, kids: &Vec<Node>, depth: usize, fuel: usize)
    requires
        depth + fuel <= usize::MAX,
    ensures
        final(out)@ == old(out)@ + kids_html(nodes_view(all@), rels@.map_values(|x: Relation| x@), nodes_view(kids@), depth as nat, fuel as nat),
    decreases fuel, 1nat,
{
    let ghost kv = nodes_view(kids@);
    let ghost o0 = out@;
    let mut i: usize = 0;
    while i < kids.len()
        invariant
            i <= kids@.len(),
            kv == nodes_view(kids@),
            depth + fuel <= usize::MAX,
            out@ == o0 + kids_html(nodes_view(all@), rels@.map_values(|x: Relation| x@), kv.take(i as int), depth as nat, fuel as nat),
        decreases kids@.len() - i,
    {
        proof {
            assert(kv.take(i + 1).drop_last() =~= kv.take(i as int));
            assert(kv.take(i + 1).last() == kids@[i as int]@);
        }
        emit_node(out, all, rels, &kids[i], depth, fuel);
        assert(out@ =~= o0 + kids_html(nodes_view(all@), rels@.map_values(|x: Relation| x@), kv.take(i + 1), depth as nat, fuel as nat));
        i = i + 1;
    }
    assert(kv.take(kv.len() as int) =~= kv);
}

/// Append the contents entries below `p` (see `toc_html`).
#[verifier::spinoff_prover]
fn push_toc(out: &mut String, all: &Vec<Node>, p: &Node, depth: usize, fuel: usize)
    requires
        depth + fuel <= usize::MAX,
    ensures
        final(out)@ == old(out)@ + toc_html(nodes_view(all@), p@, depth as nat, fuel as nat),
    decreases fuel, 1nat, 0nat,
{
    let kids = children_of(all, Some(p.id.as_str()));
    let ghost kv = nodes_view(kids@);
    let mut buf = String::new();
    let mut has = false;
    let mut i: usize = 0;
    while i < kids.len()
        invariant
            i <= kids@.len(),
            kv == nodes_view(kids@),
            kv == crate::tree::children_spec(nodes_view(all@), Some(p@.id)),
            depth + fuel <= usize::MAX,
            buf@ == toc_items(nodes_view(all@), p@, kv.take(i as int), depth as nat, fuel as nat),
            has == exists|j: int| 0 <= j < i && toc_included(#[trigger] kv[j], p@, depth as nat),
        decreases kids@.len() - i,
    {
        let c = &kids[i];
        proof {
            assert(kv[i as int] == c@);
            assert(kv.take(i + 1).drop_last() =~= kv.take(i as int));
            assert(kv.take(i + 1).last() == c@);
        }
        let mut sub = String::new();
        if fuel > 0 {
            push_toc(&mut sub, all, c, depth + 1, fuel - 1);
        }
        let included = (matches!(c.kind, NodeKind::Section | NodeKind::Heading)) && !(depth == 1 && c.id == p.id);
        let ghost b0 = buf@;
        if included {
            has = true;
            buf.append("<li><a href=\"#");
            push_escaped(&mut buf, c.id.as_str());
            buf.append("\">");
            if c.content.unicode_len() == 0 {
                push_escaped(&mut buf, c.id.as_str());
            } else {
                push_escaped(&mut buf, c.content.as_str());
            }
            buf.append("</a>\n");
            buf.append(sub.as_str());
            buf.append("</li>\n");
            assert(buf@ =~= b0 + ("<li><a href=\"#"@ + escape_spec(c@.id) + "\">"@ + escape_spec(crate::render::toc_label(c@)) + "</a>\n"@ + sub@ + "</li>\n"@));
        } else {
            buf.append(sub.as_str());
        }
        assert(buf@ =~= toc_items(nodes_view(all@), p@, kv.take(i + 1), depth as nat, fuel as nat));
        i = i + 1;
    }
    assert(kv.take(kv.len() as int) =~= kv);
    if has {
        out.append("<ul>\n");
        out.append(buf.as_str());
        out.append("</ul>\n");
    } else {
        out.append(buf.as_str());
    }
}

/// Copy a slice of nodes into a vector.
pub fn node_vec(s: &[Node]) -> (r: Vec<Node>)
    ensures
        nodes_view(r@) == nodes_view(s@),
{
    let mut out: Vec<Node> = Vec::new();
    let mut i: usize = 0;
    while i < s.len()
        invariant
            i <= s@.len(),
            nodes_view(out@) == nodes_view(s@.take(i as int)),
        decreases s@.len() - i,
    {
        let ghost prev = out@;
        out.push(s[i].clone());
        proof {
            crate::text::lemma_take_push(s@, i as int);
            crate::text::lemma_map_push(prev, out@.last(), |n: Node| n@);
            crate::text::lemma_map_push(s@.take(i as int), s@[i as int], |n: Node| n@);
        }
        i = i + 1;
    }
    assert(s@.take(s@.len() as int) =~= s@);
    out
}

/// Copy a slice of relations into a vector.
pub fn relation_vec(s: &[Relation]) -> (r: Vec<Relation>)
    ensures
        r@.map_values(|x: Relation| x@) == s@.map_values(|x: Relation| x@),
{
    let mut out: Vec<Relation> = Vec::new();
    let mut i: usize = 0;
    while i < s.len()
        invariant
            i <= s@.len(),
            out@.map_values(|x: Relation| x@) == s@.take(i as int).map_values(|x: Relation| x@),
        decreases s@.len() - i,
    {
        let ghost prev = out@;
        out.push(s[i].clone());
        proof {
            crate::text::lemma_take_push(s@, i as int);
            crate::text::lemma_map_push(prev, out@.last(), |x: Relation| x@);
            crate::text::lemma_map_push(s@.take(i as int), s@[i as int], |x: Relation| x@);
        }
        i = i + 1;
    }
    assert(s@.take(s@.len() as int) =~= s@);
    out
}

/// Render a document to a complete HTML page: title, an optional branch
/// banner, a nested table of contents of the sections and headings below
/// the top node, then the top node and its subtree.
pub fn render_html(doc: &Document, nodes: &[Node], relations: &[Relation], branch: Option<&str>) -> (r: String)
    requires
        nodes@.len() < usize::MAX,
    ensures
        r@ == render_spec(doc@, nodes_view(nodes@), relations@.map_values(|x: Relation| x@), match branch {
            Some(b) => Some(b@),
            None => None,
        }),
{
    let all = node_vec(nodes);
    let rels = relation_vec(relations);
    let mut out = owned("<!DOCTYPE html>\n<html>\n<head>\n");
    out.append("  <meta charset=\"utf-8\">\n  <title>");
    push_escaped(&mut out, doc.title.as_str());
    out.append("</title>\n");
    out.append(PAGE_STYLE);
    out.append("</head>\n<body>\n");
    let ghost o1 = out@;
    if let Some(b) = branch {
        out.append("<aside class=\"aidoc-branch\">");
        push_escaped(&mut out, b);
        out.append("</aside>\n");
    }
    let ghost o2 = out@;
    match top_node(&all, doc.root_node.as_str()) {
        Some(root) => {
            out.append("<nav class=\"aidoc-toc\" aria-label=\"Table of contents\"><details open><summary>Contents</summary>");
            push_toc(&mut out, &all, &root, 1, all.len());
            out.append("</details></nav>\n");
            emit_node(&mut out, &all, &rels, &root, 1, all.len());
        },
        None => {},
    }
    out.append("</body>\n</html>\n");
    assert(out@ =~= render_spec(doc@, nodes_view(nodes@), relations@.map_values(|x: Relation| x@), match branch {
        Some(b) => Some(b@),
        None => None,
    }));
    out
}

} // verus!
