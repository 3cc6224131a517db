//! The built-in demo: a new document goes through the whole create ->
//! update -> revert loop, each step an operation of the engine.

use vstd::prelude::*;
use crate::apply::{apply_operation, apply_spec, outcome_post, stamp, ApplyOutcome};
use crate::commands::{current_head, seed_initial_revision, seed_revision_post, seed_root, seed_root_post};
use crate::editor::empty_patch;
use crate::engine::{apply_error_text, store_error_text, ApplyError};
use crate::history::{revert_error_text, revert_post, revert_to, RevertError, RevertOutcome};
use crate::id::{NodeId, OpId, RevisionId};
use crate::model::{Operation, OperationType, OperationV, Patch, PatchV};
use crate::provenance::{ActorKind, Provenance};
use crate::store::{doc_tables, head_spec, DocTablesV, Store, StoreError};
use crate::text::{opt_str_view, owned};

verus! {

/// The demo document's id.
pub open spec fn demo_doc() -> Seq<char> {
    "demo-doc"@
}

/// The demo document's title.
pub open spec fn demo_title() -> Seq<char> {
    "AIDoc v0.1 Demo"@
}

/// The text the demo creates the `architecture` node with.
pub open spec fn first_text() -> Seq<char> {
    "系统采用微服务架构。"@
}

/// The text the demo then replaces it by.
pub open spec fn second_text() -> Seq<char> {
    "系统采用微服务架构，包含订单、库存、支付三个核心服务。"@
}

/// An operation of the demo script on the `architecture` node.
pub open spec fn demo_op(
    op: OperationV,
    id: Seq<char>,
    op_type: OperationType,
    head: Seq<char>,
    content: Seq<char>,
    reason: Seq<char>,
) -> bool {
    &&& op.id == id
    &&& op.op_type == op_type
    &&& op.target == Some("architecture"@)
    &&& op.expected_revision == head
    &&& op.expected_hash is None
    &&& op.target_revision is None
    &&& op.targets.len() == 0
    &&& op.patch == Some(PatchV { content: Some(content), ..empty_patch() })
    &&& op.reason == Some(reason)
}

/// The demo's create: by the human `demo`, on the seeded head.
pub open spec fn create_step(op: OperationV, head: Seq<char>) -> bool {
    &&& demo_op(op, "OP-001"@, OperationType::Create, head, first_text(), "add architecture section"@)
    &&& op.actor matches Provenance::Operation { actor, .. } && actor.kind == ActorKind::Human
        && opt_str_view(actor.id) == Some("demo"@) && actor.agent is None && actor.model is None
}

/// The demo's update: by the AI agent `document-agent` (model
/// `MiniMax-M3`), on the revision the create made.
pub open spec fn update_step(op: OperationV, head: Seq<char>) -> bool {
    &&& demo_op(op, "OP-002"@, OperationType::Update, head, second_text(), "expand architecture description"@)
    &&& op.actor matches Provenance::Operation { actor, .. } && actor.kind == ActorKind::Ai && actor.id is None
        && opt_str_view(actor.agent) == Some("document-agent"@) && opt_str_view(actor.model) == Some("MiniMax-M3"@)
}

/// The revisions the demo went through.
#[derive(Debug)]
pub struct DemoReport {
    pub after_create: RevisionId,
    pub after_update: RevisionId,
    /// The revision the revert created.
    pub new_head: RevisionId,
    /// The revision the revert went back to: the one after the create.
    pub reverted_to: RevisionId,
}

pub struct DemoReportV {
    pub after_create: Seq<char>,
    pub after_update: Seq<char>,
    pub new_head: Seq<char>,
    pub reverted_to: Seq<char>,
}

impl View for DemoReport {
    type V = DemoReportV;

    open spec fn view(&self) -> DemoReportV {
        DemoReportV {
            after_create: self.after_create@,
            after_update: self.after_update@,
            new_head: self.new_head@,
            reverted_to: self.reverted_to@,
        }
    }
}

pub open spec fn demo_view(r: Result<DemoReport, String>) -> Result<DemoReportV, Seq<char>> {
    match r {
        Ok(rep) => Ok(rep@),
        Err(m) => Err(m@),
    }
}

/// The demo run from store `s0` to store `after`, through the stores `s1`
/// (document seeded), `s2` (first revision), `s3` (created) and `s4`
/// (updated), with the results `r1` to `r5` of its five steps and the
/// operations `c` and `u` it applied; it stops at the first failure.
pub open spec fn demo_steps(
    r: Result<DemoReportV, Seq<char>>,
    s0: Seq<DocTablesV>,
    s1: Seq<DocTablesV>,
    s2: Seq<DocTablesV>,
    s3: Seq<DocTablesV>,
    s4: Seq<DocTablesV>,
    after: Seq<DocTablesV>,
    r1: Result<(), StoreError>,
    r2: Result<(), StoreError>,
    r3: Result<ApplyOutcome, ApplyError>,
    r4: Result<ApplyOutcome, ApplyError>,
    r5: Result<RevertOutcome, RevertError>,
    c: OperationV,
    u: OperationV,
) -> bool {
    let doc = demo_doc();
    &&& seed_root_post(r1, s0, s1, doc, demo_title())
    &&& match r1 {
        Err(e) => r == Err::<DemoReportV, Seq<char>>("seed: "@ + store_error_text(e@)) && after == s1,
        Ok(()) => {
            &&& seed_revision_post(r2, s1, s2, doc, "initial empty revision"@)
            &&& match r2 {
                Err(e) => r == Err::<DemoReportV, Seq<char>>("R000: "@ + store_error_text(e@)) && after == s2,
                Ok(()) => match doc_tables(s2, doc) {
                    Some(t) if head_spec(t) is Some => {
                        &&& create_step(c, head_spec(t)->0)
                        &&& outcome_post(r3, s2, s3, doc, c, apply_spec(s2, doc, c, stamp(s2, s3, doc)))
                        &&& match r3 {
                            Err(e) => r == Err::<DemoReportV, Seq<char>>("create: "@ + apply_error_text(e@)) && after == s3,
                            Ok(o1) => {
                                &&& update_step(u, o1.revision@)
                                &&& outcome_post(r4, s3, s4, doc, u, apply_spec(s3, doc, u, stamp(s3, s4, doc)))
                                &&& match r4 {
                                    Err(e) => r == Err::<DemoReportV, Seq<char>>("update: "@ + apply_error_text(e@)) && after == s4,
                                    Ok(o2) => {
                                        &&& revert_post(r5, s4, after, doc, o1.revision@, Some("demo: roll back the UPDATE"@))
                                        &&& match r5 {
                                            Err(e) => r == Err::<DemoReportV, Seq<char>>("revert: "@ + revert_error_text(e@)),
                                            Ok(o3) => r == Ok::<DemoReportV, Seq<char>>(DemoReportV {
                                                after_create: o1.revision@,
                                                after_update: o2.revision@,
                                                new_head: o3.new_revision@,
                                                reverted_to: o3.target_revision@,
                                            }),
                                        }
                                    },
                                }
                            },
                        }
                    },
                    _ => r == Err::<DemoReportV, Seq<char>>("no head"@) && after == s2,
                },
            }
        },
    }
}

/// Some run of the demo script leads from `before` to `after` with result `r`.
pub open spec fn demo_post(r: Result<DemoReportV, Seq<char>>, before: Seq<DocTablesV>, after: Seq<DocTablesV>) -> bool {
    exists|s1: Seq<DocTablesV>, s2: Seq<DocTablesV>, s3: Seq<DocTablesV>, s4: Seq<DocTablesV>,
        r1: Result<(), StoreError>, r2: Result<(), StoreError>, r3: Result<ApplyOutcome, ApplyError>,
        r4: Result<ApplyOutcome, ApplyError>, r5: Result<RevertOutcome, RevertError>, c: OperationV, u: OperationV|
        #[trigger] demo_steps(r, before, s1, s2, s3, s4, after, r1, r2, r3, r4, r5, c, u)
}

fn demo_operation(id: &str, op_type: OperationType, head: RevisionId, content: &str, actor: Provenance, reason: &str) -> (r: Operation)
    ensures
        demo_op(r@, id@, op_type, head@, content@, reason@),
        r.actor == actor,
{
    let mut patch = Patch::default();
    patch.content = Some(owned(content));
    let op = Operation {
        id: OpId::new(id),
        op_type,
        target: Some(NodeId::from_validated("architecture")),
        expected_revision: head,
        expected_hash: None,
        target_revision: None,
        targets: Vec::new(),
        actor,
        patch: Some(patch),
        reason: Some(owned(reason)),
    };
    proof {
        reveal_strlit("architecture");
        assert(op@.targets =~= Seq::<Seq<char>>::empty());
    }
    op
}

/// Run the demo on `store`: seed `demo-doc`, create its `architecture`
/// node, update it, then revert to the revision after the create.
pub fn run_demo(store: &mut Store) -> (r: Result<DemoReport, String>)
    ensures
        demo_post(demo_view(r), old(store)@, final(store)@),
{
    let ghost s0 = store@;
    proof {
        reveal_strlit("demo-doc");
        reveal_strlit("AIDoc v0.1 Demo");
        reveal_strlit("initial empty revision");
    }
    let doc_id = "demo-doc";
    let r1 = seed_root(store, doc_id, "AIDoc v0.1 Demo");
    let ghost s1 = store@;
    let ghost g1 = r1;
    if let Err(e) = r1 {
        let mut m = owned("seed: ");
        m.append(e.message().as_str());
        let out: Result<DemoReport, String> = Err(m);
        assert(demo_steps(demo_view(out), s0, s1, s1, s1, s1, s1, g1, arbitrary(), arbitrary(), arbitrary(), arbitrary(), arbitrary(), arbitrary()));
        return out;
    }
    let r2 = seed_initial_revision(store, doc_id, "initial empty revision");
    let ghost s2 = store@;
    let ghost g2 = r2;
    if let Err(e) = r2 {
        let mut m = owned("R000: ");
        m.append(e.message().as_str());
        let out: Result<DemoReport, String> = Err(m);
        assert(demo_steps(demo_view(out), s0, s1, s2, s2, s2, s2, g1, g2, arbitrary(), arbitrary(), arbitrary(), arbitrary(), arbitrary()));
        return out;
    }
    let head = match current_head(store, doc_id) {
        Ok(h) => h,
        Err(_) => {
            let out: Result<DemoReport, String> = Err(owned("no head"));
            assert(demo_steps(demo_view(out), s0, s1, s2, s2, s2, s2, g1, g2, arbitrary(), arbitrary(), arbitrary(), arbitrary(), arbitrary()));
            return out;
        },
    };
    let c = demo_operation(
        "OP-001",
        OperationType::Create,
        RevisionId::from_string(head),
        "系统采用微服务架构。",
        Provenance::human(Some(owned("demo"))),
        "add architecture section",
    );
    let ghost cv = c@;
    proof {
        reveal_strlit("demo");
    }
    assert(create_step(cv, head_spec(doc_tables(s2, demo_doc())->0)->0));
    let r3 = apply_operation(store, doc_id, c);
    let ghost s3 = store@;
    let ghost g3 = r3;
    let o1 = match r3 {
        Ok(o) => o,
        Err(e) => {
            let mut m = owned("create: ");
            m.append(e.message().as_str());
            let out: Result<DemoReport, String> = Err(m);
            assert(demo_steps(demo_view(out), s0, s1, s2, s3, s3, s3, g1, g2, g3, arbitrary(), arbitrary(), cv, arbitrary()));
            return out;
        },
    };
    let u = demo_operation(
        "OP-002",
        OperationType::Update,
        o1.revision.clone(),
        "系统采用微服务架构，包含订单、库存、支付三个核心服务。",
        Provenance::ai(owned("document-agent"), Some(owned("MiniMax-M3"))),
        "expand architecture description",
    );
    let ghost uv = u@;
    proof {
        reveal_strlit("document-agent");
        reveal_strlit("MiniMax-M3");
    }
    assert(update_step(uv, o1.revision@));
    let r4 = apply_operation(store, doc_id, u);
    let ghost s4 = store@;
    let ghost g4 = r4;
    let o2 = match r4 {
        Ok(o) => o,
        Err(e) => {
            let mut m = owned("update: ");
            m.append(e.message().as_str());
            let out: Result<DemoReport, String> = Err(m);
            assert(demo_steps(demo_view(out), s0, s1, s2, s3, s4, s4, g1, g2, g3, g4, arbitrary(), cv, uv));
            return out;
        },
    };
    let r5 = revert_to(store, doc_id, o1.revision.clone(), Some(owned("demo: roll back the UPDATE")));
    let ghost s5 = store@;
    let ghost g5 = r5;
    match r5 {
        Ok(o3) => {
            let out: Result<DemoReport, String> = Ok(DemoReport {
                after_create: o1.revision,
                after_update: o2.revision,
                new_head: o3.new_revision,
                reverted_to: o3.target_revision,
            });
            assert(demo_steps(demo_view(out), s0, s1, s2, s3, s4, s5, g1, g2, g3, g4, g5, cv, uv));
            out
        },
        Err(e) => {
            let mut m = owned("revert: ");
            m.append(e.message().as_str());
            let out: Result<DemoReport, String> = Err(m);
            assert(demo_steps(demo_view(out), s0, s1, s2, s3, s4, s5, g1, g2, g3, g4, g5, cv, uv));
            out
        },
    }
}

} // verus!
