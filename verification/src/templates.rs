//! The bundled example documents and scaffolding a document from one:
//! the document is created with revision `R000`, then every template node
//! below the root is created by its own operation on the current head.

use vstd::prelude::*;
use crate::apply::{apply_operation, apply_spec, outcome_post, stamp};
use crate::engine::apply_error_text;
use crate::id::{NodeId, OpId, RevisionId};
use crate::model::{Document, DocumentV, Operation, OperationType, OperationV, Patch, PatchV, Revision, RevisionV};
use crate::node::NodeKind;
use crate::provenance::{ActorKind, Provenance};
use crate::engine::ApplyErrorV;
use crate::store::{
    advance_head_spec, doc_index, doc_tables, head_spec, insert_revision_spec, upserted, with_tables,
    DocTablesV, Store, StoreErrorV,
};
use crate::engine::store_error_text;
use crate::text::{opt_str_view, owned, push_char, str_eq};
use crate::commands::seed_document;

verus! {

/// A template node: id and content, placed under the document root.
#[derive(Debug, Clone, Copy)]
pub struct TmplNode {
    pub id: &'static str,
    pub content: &'static str,
}

pub open spec fn tmpls_view(v: Seq<TmplNode>) -> Seq<(Seq<char>, Seq<char>)> {
    v.map_values(|t: TmplNode| (t.id@, t.content@))
}

pub open spec fn order_system_spec() -> Seq<(Seq<char>, Seq<char>)> {
    seq![
        ("root"@, "订单系统技术文档"@),
        ("overview"@, "本系统负责订单全生命周期管理：下单、库存扣减、支付、履约。"@),
        ("requirements"@, "REQ-001: 系统必须支持订单创建、查询、取消。\nREQ-002: 订单状态变更必须可追溯。"@),
        ("decision-microservices"@, "采用微服务架构：order-service、inventory-service、payment-service 独立部署。"@),
        ("problem-n-plus-one"@, "订单查询接口存在 N+1 查询问题：先查订单列表，再循环查每笔订单的明细。"@),
        ("solution-batch-query"@, "使用批量查询替代逐条查询：一次 SQL 拉所有订单及其明细。\n引入 DataLoader 在 Service 层做聚合。"@),
        ("code-ref-order-service"@, "订单服务负责订单创建和查询。"@),
        ("diagram-order-flow"@, "graph TD\n  A[创建订单] --> B[库存检查]\n  B --> C[扣库存]\n  C --> D[订单创建]\n  D --> E[返回结果]"@)
    ]
}

/// The `order-system` template: an order service design document.
pub fn order_system_nodes() -> (r: Vec<TmplNode>)
    ensures
        tmpls_view(r@) == order_system_spec(),
{
    let mut v: Vec<TmplNode> = Vec::new();
    v.push(TmplNode { id: "root", content: "订单系统技术文档" });
    v.push(TmplNode { id: "overview", content: "本系统负责订单全生命周期管理：下单、库存扣减、支付、履约。" });
    v.push(TmplNode { id: "requirements", content: "REQ-001: 系统必须支持订单创建、查询、取消。\nREQ-002: 订单状态变更必须可追溯。" });
    v.push(TmplNode { id: "decision-microservices", content: "采用微服务架构：order-service、inventory-service、payment-service 独立部署。" });
    v.push(TmplNode { id: "problem-n-plus-one", content: "订单查询接口存在 N+1 查询问题：先查订单列表，再循环查每笔订单的明细。" });
    v.push(TmplNode { id: "solution-batch-query", content: "使用批量查询替代逐条查询：一次 SQL 拉所有订单及其明细。\n引入 DataLoader 在 Service 层做聚合。" });
    v.push(TmplNode { id: "code-ref-order-service", content: "订单服务负责订单创建和查询。" });
    v.push(TmplNode { id: "diagram-order-flow", content: "graph TD\n  A[创建订单] --> B[库存检查]\n  B --> C[扣库存]\n  C --> D[订单创建]\n  D --> E[返回结果]" });
    assert(tmpls_view(v@) =~= order_system_spec());
    v
}

pub open spec fn api_system_spec() -> Seq<(Seq<char>, Seq<char>)> {
    seq![
        ("root"@, "REST API 设计规范"@),
        ("overview"@, "公司内部 REST API 统一规范，覆盖版本、鉴权、错误处理。"@),
        ("versioning"@, "URL 路径版本化：/api/v1/orders, /api/v2/orders。主版本下线前至少公告 6 个月。"@),
        ("auth"@, "JWT Bearer Token。Access Token 15 分钟，Refresh Token 7 天。"@),
        ("errors"@, "统一错误响应 { code, details }。HTTP 状态码必须准确：404 vs 422。"@),
        ("rate-limit"@, "每用户 100 req/min，超限返回 429。"@)
    ]
}

/// The `api-system` template: REST API conventions.
pub fn api_system_nodes() -> (r: Vec<TmplNode>)
    ensures
        tmpls_view(r@) == api_system_spec(),
{
    let mut v: Vec<TmplNode> = Vec::new();
    v.push(TmplNode { id: "root", content: "REST API 设计规范" });
    v.push(TmplNode { id: "overview", content: "公司内部 REST API 统一规范，覆盖版本、鉴权、错误处理。" });
    v.push(TmplNode { id: "versioning", content: "URL 路径版本化：/api/v1/orders, /api/v2/orders。主版本下线前至少公告 6 个月。" });
    v.push(TmplNode { id: "auth", content: "JWT Bearer Token。Access Token 15 分钟，Refresh Token 7 天。" });
    v.push(TmplNode { id: "errors", content: "统一错误响应 { code, details }。HTTP 状态码必须准确：404 vs 422。" });
    v.push(TmplNode { id: "rate-limit", content: "每用户 100 req/min，超限返回 429。" });
    assert(tmpls_view(v@) =~= api_system_spec());
    v
}

pub open spec fn knowledge_graph_spec() -> Seq<(Seq<char>, Seq<char>)> {
    seq![
        ("root"@, "Knowledge Graph for Code Wiki"@),
        ("overview"@, "AIDoc Node graph backed by SQLite. Relations enable structure-aware RAG. "@),
        ("requirement-rag"@, "RAG chunks must carry node_id, parent_id, revision, content_hash, relations."@),
        ("diagram-graph"@, "graph LR\n  Document --> Node\n  Node --> Relation\n  Node --> CodeRef\n  CodeRef --> Provenance"@),
        ("code-ref-vector-store"@, "Vector store keys by node_id; relations + parent expand the retrieval context."@)
    ]
}

/// The `knowledge-graph` template: a code wiki knowledge graph.
pub fn knowledge_graph_nodes() -> (r: Vec<TmplNode>)
    ensures
        tmpls_view(r@) == knowledge_graph_spec(),
{
    let mut v: Vec<TmplNode> = Vec::new();
    v.push(TmplNode { id: "root", content: "Knowledge Graph for Code Wiki" });
    v.push(TmplNode { id: "overview", content: "AIDoc Node graph backed by SQLite. Relations enable structure-aware RAG. " });
    v.push(TmplNode { id: "requirement-rag", content: "RAG chunks must carry node_id, parent_id, revision, content_hash, relations." });
    v.push(TmplNode { id: "diagram-graph", content: "graph LR\n  Document --> Node\n  Node --> Relation\n  Node --> CodeRef\n  CodeRef --> Provenance" });
    v.push(TmplNode { id: "code-ref-vector-store", content: "Vector store keys by node_id; relations + parent expand the retrieval context." });
    assert(tmpls_view(v@) =~= knowledge_graph_spec());
    v
}
/// The nodes of the template called `name`, if there is one.
pub open spec fn template_spec(name: Seq<char>) -> Option<Seq<(Seq<char>, Seq<char>)>> {
    if name == "order-system"@ {
        Some(order_system_spec())
    } else if name == "api-system"@ {
        Some(api_system_spec())
    } else if name == "knowledge-graph"@ {
        Some(knowledge_graph_spec())
    } else {
        None
    }
}

pub open spec fn unknown_template_msg(name: Seq<char>) -> Seq<char> {
    "unknown template: "@ + name + " (try order-system / api-system / knowledge-graph)"@
}

/// The nodes of template `name`; unknown names are refused.
pub fn template_nodes(name: &str) -> (r: Result<Vec<TmplNode>, String>)
    ensures
        match template_spec(name@) {
            Some(t) => r matches Ok(v) && tmpls_view(v@) == t,
            None => r matches Err(m) && m@ == unknown_template_msg(name@),
        },
{
    if str_eq(name, "order-system") {
        Ok(order_system_nodes())
    } else if str_eq(name, "api-system") {
        Ok(api_system_nodes())
    } else if str_eq(name, "knowledge-graph") {
        Ok(knowledge_graph_nodes())
    } else {
        let mut m = owned("unknown template: ");
        m.append(name);
        m.append(" (try order-system / api-system / knowledge-graph)");
        Err(m)
    }
}

/// `s` with every `-` written `_`.
pub open spec fn underscored(s: Seq<char>) -> Seq<char> {
    s.map_values(|c: char| if c == '-' { '_' } else { c })
}

/// The document id of a template: its name with `-` written `_`.
pub fn example_doc_id(template: &str) -> (r: String)
    ensures
        r@ == underscored(template@),
{
    let n = template.unicode_len();
    let mut out = String::new();
    let mut i: usize = 0;
    while i < n
        invariant
            i <= n,
            n == template@.len(),
            out@ == underscored(template@.take(i as int)),
        decreases n - i,
    {
        let c = template.get_char(i);
        if c == '-' {
            push_char(&mut out, '_');
        } else {
            push_char(&mut out, c);
        }
        assert(underscored(template@.take(i + 1)) =~= underscored(template@.take(i as int)).push(if c == '-' { '_' } else { c }));
        i = i + 1;
    }
    assert(template@.take(n as int) =~= template@);
    out
}

/// A scaffolded edit is attributed to a human named `example:{template}`.
pub open spec fn example_actor(p: Provenance, template: Seq<char>) -> bool {
    p matches Provenance::Operation { actor, .. } && actor.kind == ActorKind::Human
        && opt_str_view(actor.id) == Some("example:"@ + template) && actor.agent is None && actor.model is None
}

/// `op` creates template node `node` of `template` on revision `head`.
pub open spec fn scaffold_op_ok(op: OperationV, template: Seq<char>, node: (Seq<char>, Seq<char>), head: Seq<char>) -> bool {
    &&& op.id == "OP-seed-"@ + node.0
    &&& op.op_type == OperationType::Create
    &&& op.target == Some(node.0)
    &&& op.expected_revision == head
    &&& op.expected_hash is None
    &&& op.target_revision is None
    &&& op.targets.len() == 0
    &&& op.patch == Some(PatchV {
        content: Some(node.1),
        title: None,
        semantic_type: None,
        kind: None,
        position: None,
        attributes: Seq::empty(),
    })
    &&& op.reason == Some("scaffold "@ + template + "/"@ + node.0)
    &&& example_actor(op.actor, template)
}

/// The operation that creates `node` on `head`.
pub fn scaffold_op(template: &str, node: &TmplNode, head: &str) -> (op: Operation)
    ensures
        scaffold_op_ok(op@, template@, (node.id@, node.content@), head@),
{
    let mut id = owned("OP-seed-");
    id.append(node.id);
    let mut who = owned("example:");
    who.append(template);
    let mut reason = owned("scaffold ");
    reason.append(template);
    reason.append("/");
    reason.append(node.id);
    let patch = Patch {
        content: Some(owned(node.content)),
        title: None,
        semantic_type: None,
        kind: None,
        position: None,
        attributes: crate::attrs::attrs_new(),
    };
    let op = Operation {
        id: OpId::from_string(id),
        op_type: OperationType::Create,
        target: Some(NodeId::from_validated(node.id)),
        expected_revision: RevisionId::new(head),
        expected_hash: None,
        target_revision: None,
        targets: Vec::new(),
        actor: Provenance::human(Some(who)),
        patch: Some(patch),
        reason: Some(reason),
    };
    assert(op@.targets =~= Seq::<Seq<char>>::empty());
    op
}

/// The head of document `doc` as a reader sees it: `R000` when none.
pub open spec fn head_or_seed_of(s: Seq<DocTablesV>, doc: Seq<char>) -> Seq<char> {
    match doc_tables(s, doc) {
        Some(t) => match head_spec(t) {
            Some(h) => h,
            None => "R000"@,
        },
        None => "R000"@,
    }
}

/// Applying the first `k` of `ops` in turn, the `i`-th stamped `tss[i]`:
/// the store and the head read back after the last, or the index and
/// error of the first refusal.
pub open spec fn scaffold_run(
    s: Seq<DocTablesV>,
    doc: Seq<char>,
    ops: Seq<OperationV>,
    tss: Seq<Seq<char>>,
    k: nat,
) -> Result<(Seq<DocTablesV>, Seq<char>), (nat, ApplyErrorV)>
    decreases k,
{
    if k == 0 {
        Ok((s, "R000"@))
    } else {
        match scaffold_run(s, doc, ops, tss, (k - 1) as nat) {
            Err(e) => Err(e),
            Ok((s1, _)) => match apply_spec(s1, doc, ops[k - 1], tss[k - 1]) {
                Err(e) => Err(((k - 1) as nat, e)),
                Ok((t2, _)) => {
                    let s2 = with_tables(s1, doc, t2);
                    Ok((s2, head_or_seed_of(s2, doc)))
                },
            },
        }
    }
}

proof fn lemma_run_prefix(s: Seq<DocTablesV>, doc: Seq<char>, ops: Seq<OperationV>, tss: Seq<Seq<char>>, o: OperationV, ts: Seq<char>, k: nat)
    requires
        k <= ops.len(),
        k <= tss.len(),
    ensures
        scaffold_run(s, doc, ops.push(o), tss.push(ts), k) == scaffold_run(s, doc, ops, tss, k),
    decreases k,
{
    if k > 0 {
        lemma_run_prefix(s, doc, ops, tss, o, ts, (k - 1) as nat);
        assert(ops.push(o)[k - 1] == ops[k - 1]);
        assert(tss.push(ts)[k - 1] == tss[k - 1]);
    }
}

/// How many template nodes get an operation: all but the root.
pub open spec fn below_root(n: nat) -> nat {
    if n == 0 { 0 } else { (n - 1) as nat }
}

/// The run of `ops` stamped `tss` explains result `r` and store `after`:
/// every operation creates the next template node on the head the previous
/// one left, and the run either went through or stopped at its last one.
pub open spec fn scaffold_trace(
    r: Result<(), Seq<char>>,
    before: Seq<DocTablesV>,
    after: Seq<DocTablesV>,
    doc: Seq<char>,
    template: Seq<char>,
    nodes: Seq<(Seq<char>, Seq<char>)>,
    ops: Seq<OperationV>,
    tss: Seq<Seq<char>>,
) -> bool {
    &&& ops.len() == tss.len()
    &&& ops.len() <= below_root(nodes.len())
    &&& forall|k: nat| k < ops.len() ==> scaffold_op_ok(ops[k as int], template, nodes[k + 1int], ((#[trigger] scaffold_run(before, doc, ops, tss, k))->Ok_0).1)
    &&& match r {
        Ok(()) => {
            &&& ops.len() == below_root(nodes.len())
            &&& scaffold_run(before, doc, ops, tss, ops.len()) is Ok
            &&& (scaffold_run(before, doc, ops, tss, ops.len())->Ok_0).0 == after
        },
        Err(m) => {
            &&& ops.len() >= 1
            &&& scaffold_run(before, doc, ops, tss, ops.len()) is Err
            &&& (scaffold_run(before, doc, ops, tss, ops.len())->Err_0).0 + 1 == ops.len()
            &&& m == "create "@ + nodes[ops.len() as int].0 + ": "@ + apply_error_text((scaffold_run(before, doc, ops, tss, ops.len())->Err_0).1)
            &&& after == (scaffold_run(before, doc, ops, tss, (ops.len() - 1) as nat)->Ok_0).0
        },
    }
}

pub open spec fn scaffold_post(
    r: Result<(), Seq<char>>,
    before: Seq<DocTablesV>,
    after: Seq<DocTablesV>,
    doc: Seq<char>,
    template: Seq<char>,
    nodes: Seq<(Seq<char>, Seq<char>)>,
) -> bool {
    exists|ops: Seq<OperationV>, tss: Seq<Seq<char>>| #[trigger] scaffold_trace(r, before, after, doc, template, nodes, ops, tss)
}

pub open spec fn unit_view(r: Result<(), String>) -> Result<(), Seq<char>> {
    match r {
        Ok(()) => Ok(()),
        Err(m) => Err(m@),
    }
}

/// Create every template node below the root, each by its own operation on
/// the head the previous one left (`R000` first); stops at the first refusal.
pub fn scaffold_nodes(store: &mut Store, doc_id: &str, template: &str, nodes: &Vec<TmplNode>) -> (r: Result<(), String>)
    ensures
        scaffold_post(unit_view(r), old(store)@, final(store)@, doc_id@, template@, tmpls_view(nodes@)),
{
    let ghost s0 = store@;
    let ghost nv = tmpls_view(nodes@);
    let ghost mut ops: Seq<OperationV> = Seq::empty();
    let ghost mut tss: Seq<Seq<char>> = Seq::empty();
    proof {
        reveal_strlit("R000");
    }
    if nodes.len() == 0 {
        assert(scaffold_trace(Ok(()), s0, store@, doc_id@, template@, nv, ops, tss));
        return Ok(());
    }
    let mut head = owned("R000");
    let mut i: usize = 1;
    while i < nodes.len()
        invariant
            1 <= i <= nodes@.len(),
            nv == tmpls_view(nodes@),
            s0 == old(store)@,
            ops.len() + 1 == i,
            tss.len() + 1 == i,
            scaffold_run(s0, doc_id@, ops, tss, ops.len()) == Ok::<(Seq<DocTablesV>, Seq<char>), (nat, ApplyErrorV)>((store@, head@)),
            forall|k: nat| k < ops.len() ==> scaffold_op_ok(ops[k as int], template@, nv[k + 1int], ((#[trigger] scaffold_run(s0, doc_id@, ops, tss, k))->Ok_0).1),
        decreases nodes@.len() - i,
    {
        let op = scaffold_op(template, &nodes[i], head.as_str());
        assert(nv[i as int] == (nodes@[i as int].id@, nodes@[i as int].content@));
        let ghost opv = op@;
        let ghost before = store@;
        let ghost ops0 = ops;
        let ghost tss0 = tss;
        let res = apply_operation(store, doc_id, op);
        let ghost ts = stamp(before, store@, doc_id@);
        proof {
            assert forall|k: nat| k <= ops0.len() implies #[trigger] scaffold_run(s0, doc_id@, ops0.push(opv), tss0.push(ts), k)
                == scaffold_run(s0, doc_id@, ops0, tss0, k) by {
                lemma_run_prefix(s0, doc_id@, ops0, tss0, opv, ts, k);
            }
            ops = ops0.push(opv);
            tss = tss0.push(ts);
            assert(scaffold_run(s0, doc_id@, ops, tss, ops0.len()) == scaffold_run(s0, doc_id@, ops0, tss0, ops0.len()));
            assert(ops[ops0.len() as int] == opv);
            assert(tss[ops0.len() as int] == ts);
            assert forall|k: nat| k < ops.len() implies scaffold_op_ok(ops[k as int], template@, nv[k + 1int], ((#[trigger] scaffold_run(s0, doc_id@, ops, tss, k))->Ok_0).1) by {
                if k < ops0.len() {
                    assert(ops[k as int] == ops0[k as int]);
                    assert(scaffold_run(s0, doc_id@, ops0, tss0, k) == scaffold_run(s0, doc_id@, ops, tss, k));
                }
            }
        }
        match res {
            Err(e) => {
                let mut m = owned("create ");
                m.append(nodes[i].id);
                m.append(": ");
                m.append(e.message().as_str());
                let ghost mv = m@;
                let out: Result<(), String> = Err(m);
                proof {
                    assert(unit_view(out) == Err::<(), Seq<char>>(mv));
                    assert(scaffold_trace(Err(mv), s0, store@, doc_id@, template@, nv, ops, tss));
                    assert(scaffold_trace(unit_view(out), s0, store@, doc_id@, template@, nv, ops, tss));
                }
                return out;
            },
            Ok(_) => {},
        }
        head = match store.head_revision(doc_id) {
            Some(h) => h,
            None => owned("R000"),
        };
        i = i + 1;
    }
    assert(scaffold_trace(Ok(()), s0, store@, doc_id@, template@, nv, ops, tss));
    Ok(())
}

/// The revision `R000` that seeds a scaffolded document, stamped `ts`.
pub open spec fn example_seed_revision(template: Seq<char>, ts: Seq<char>) -> RevisionV {
    RevisionV {
        id: "R000"@,
        parent: None,
        operation: "OP-000"@,
        created_at: ts,
        message: Some("example:"@ + template + " seed"@),
        branch: None,
    }
}

/// After the header is written (`s1`): `R000` is made head and recorded.
pub open spec fn seed_example_rest(r: Result<(), Seq<char>>, s1: Seq<DocTablesV>, after: Seq<DocTablesV>, doc: Seq<char>, template: Seq<char>) -> bool {
    let t2 = advance_head_spec(doc_tables(s1, doc)->0, "R000"@);
    let ts = doc_tables(after, doc)->0.revisions.last().rev.created_at;
    &&& doc_tables(s1, doc) is Some
    &&& match insert_revision_spec(t2, example_seed_revision(template, ts), true) {
        Ok(t3) => r == Ok::<(), Seq<char>>(()) && after == with_tables(s1, doc, t3),
        Err(e) => r == Err::<(), Seq<char>>("seed R000: "@ + store_error_text(e)) && after == with_tables(s1, doc, t2),
    }
}

pub open spec fn seed_example_post(
    r: Result<(), Seq<char>>,
    before: Seq<DocTablesV>,
    after: Seq<DocTablesV>,
    doc: Seq<char>,
    title: Seq<char>,
    template: Seq<char>,
) -> bool {
    exists|s1: Seq<DocTablesV>| #[trigger] upserted(before, s1, seed_document(doc, title)) && seed_example_rest(r, s1, after, doc, template)
}

/// Write the header of the scaffolded document `doc_id` and record `R000`
/// as its head.
pub fn seed_example(store: &mut Store, doc_id: &str, title: &str, template: &str) -> (r: Result<(), String>)
    ensures
        seed_example_post(unit_view(r), old(store)@, final(store)@, doc_id@, title@, template@),
{
    proof {
        reveal_strlit("root");
        reveal_strlit("R000");
        reveal_strlit("OP-000");
    }
    let doc = Document::new(doc_id, title, NodeId::from_validated("root"));
    let ghost s0 = store@;
    store.upsert_document(&doc);
    let ghost s1 = store@;
    let ghost i = doc_index(s1, doc_id@);
    proof {
        crate::store::lemma_doc_index(s0, doc_id@);
        if doc_tables(s0, doc_id@) is Some {
            crate::store::lemma_doc_index_update(s0, doc_id@, s1[doc_index(s0, doc_id@)]);
            assert(s1 == s0.update(doc_index(s0, doc_id@), s1[doc_index(s0, doc_id@)]));
        } else {
            assert(doc_index(s1, doc_id@) == s0.len());
        }
        crate::store::lemma_doc_index(s1, doc_id@);
    }
    store.advance_head(doc_id, "R000");
    let ghost s2 = store@;
    proof {
        crate::store::lemma_doc_index_update(s1, doc_id@, s2[i]);
        assert(s2 == s1.update(i, s2[i]));
    }
    let mut msg = owned("example:");
    msg.append(template);
    msg.append(" seed");
    let rev = Revision {
        id: RevisionId::new("R000"),
        parent: None,
        operation: OpId::new("OP-000"),
        created_at: crate::store::now(),
        message: Some(msg),
        branch: None,
    };
    let ghost ts = rev.created_at@;
    assert(rev@ == example_seed_revision(template@, ts));
    assert(upserted(s0, s1, seed_document(doc_id@, title@)));
    let res = store.insert_revision(doc_id, &rev, true);
    proof {
        crate::store::lemma_doc_index_update(s2, doc_id@, store@[i]);
        assert(store@ =~= s1.update(i, store@[i]));
        assert(doc_tables(store@, doc_id@) == Some(store@[i]));
    }
    match res {
        Ok(()) => {
            proof {
                assert(store@[i].revisions.last().rev.created_at == ts);
                assert(seed_example_rest(Ok(()), s1, store@, doc_id@, template@));
                assert(seed_example_post(Ok(()), s0, store@, doc_id@, title@, template@));
            }
            Ok(())
        },
        Err(e) => {
            let mut m = owned("seed R000: ");
            m.append(e.message().as_str());
            let out: Result<(), String> = Err(m);
            proof {
                assert(seed_example_rest(unit_view(out), s1, store@, doc_id@, template@));
                assert(seed_example_post(unit_view(out), s0, store@, doc_id@, title@, template@));
            }
            out
        },
    }
}

/// What scaffolding reports: the document id and title and the number of
/// template nodes.
#[derive(Debug)]
pub struct ScaffoldReport {
    pub doc_id: String,
    pub title: String,
    pub nodes: usize,
}

/// The title of a scaffolded document: the content of the first template node.
pub open spec fn example_title(template: Seq<char>, nodes: Seq<(Seq<char>, Seq<char>)>) -> Seq<char> {
    if nodes.len() > 0 { nodes[0].1 } else { template }
}

pub open spec fn scaffold_example_post(r: Result<ScaffoldReport, String>, before: Seq<DocTablesV>, after: Seq<DocTablesV>, template: Seq<char>) -> bool {
    match template_spec(template) {
        None => r matches Err(m) && m@ == unknown_template_msg(template) && after == before,
        Some(tm) => {
            let doc = underscored(template);
            let title = example_title(template, tm);
            exists|mid: Seq<DocTablesV>, r1: Result<(), Seq<char>>| #[trigger] seed_example_post(r1, before, mid, doc, title, template) && match r1 {
                Err(m) => r matches Err(x) && x@ == m && after == mid,
                Ok(()) => match r {
                    Ok(rep) => rep.doc_id@ == doc && rep.title@ == title && rep.nodes == tm.len()
                        && scaffold_post(Ok(()), mid, after, doc, template, tm),
                    Err(x) => scaffold_post(Err(x@), mid, after, doc, template, tm),
                },
            }
        },
    }
}

/// Scaffold the bundled template `template` into `store`: seed the document
/// (id: the name with `-` written `_`; title: the first node's content),
/// then create each node below the root by its own operation.
pub fn scaffold_example(store: &mut Store, template: &str) -> (r: Result<ScaffoldReport, String>)
    ensures
        scaffold_example_post(r, old(store)@, final(store)@, template@),
{
    let nodes = template_nodes(template)?;
    let doc_id = example_doc_id(template);
    let title = if nodes.len() > 0 { owned(nodes[0].content) } else { owned(template) };
    proof {
        if nodes@.len() > 0 {
            assert(tmpls_view(nodes@)[0] == (nodes@[0].id@, nodes@[0].content@));
        }
    }
    assert(title@ == example_title(template@, tmpls_view(nodes@)));
    let ghost s0 = store@;
    let seeded = seed_example(store, doc_id.as_str(), title.as_str(), template);
    let ghost mid = store@;
    let ghost r1 = unit_view(seeded);
    match seeded {
        Err(m) => {
            let out: Result<ScaffoldReport, String> = Err(m);
            assert(seed_example_post(r1, s0, mid, doc_id@, title@, template@));
            return out;
        },
        Ok(()) => {},
    }
    let res = scaffold_nodes(store, doc_id.as_str(), template, &nodes);
    assert(seed_example_post(r1, s0, mid, doc_id@, title@, template@));
    match res {
        Ok(()) => Ok(ScaffoldReport { doc_id, title, nodes: nodes.len() }),
        Err(m) => Err(m),
    }
}

} // verus!
