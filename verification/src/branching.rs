//! Named branches: their tips, checking one out, listing revisions, and a
//! conservative three-way merge of a branch into main.

use vstd::prelude::*;
use crate::history::{insert_nodes_spec, lemma_insert_nodes_err, sorted_ids};
use crate::model::{Revision, RevisionV};
use crate::node::{node_equal, Node, NodeV};
use crate::order::{text_less, text_lt};
use crate::engine::change_id;
use crate::id::{content_hash, content_hash_of, revision_text, OpId, RevisionId};
use crate::model::{Change, ChangeType, ChangeV, HashRef, OperationType};
use crate::text::{decimal, decimal_string, is_blank};
use crate::store::{
    add_parent_spec, first_pos, insert_change_spec, insert_revision_spec, lemma_first_pos,
    lemma_first_pos_at, next_seq_spec, now, op_exists, save_snapshot_spec, unique_operations_msg,
    OperationRecord, OperationRecordV,
    advance_head_spec, parents_spec, doc_index, doc_tables, head_spec, nodes_view, rev_number, revision_number,
    snapshot_spec, branch_spec, with_tables, DocTables, DocTablesV, RevisionRowV, Store, StoreError,
    StoreErrorV,
};
use crate::text::{opt_str_view, owned, str_eq, strs_view};

verus! {

/// Why a branch operation failed.
#[derive(Debug)]
pub enum BranchError {
    Store(StoreError),
    NotFound(String),
    NotOnMain,
    MissingSnapshot(String),
    NoCommonAncestor(String),
    Conflicts(Vec<String>),
}

pub enum BranchErrorV {
    Store(StoreErrorV),
    NotFound(Seq<char>),
    NotOnMain,
    MissingSnapshot(Seq<char>),
    NoCommonAncestor(Seq<char>),
    Conflicts(Seq<Seq<char>>),
}

impl View for BranchError {
    type V = BranchErrorV;

    open spec fn view(&self) -> BranchErrorV {
        match self {
            BranchError::Store(e) => BranchErrorV::Store(e@),
            BranchError::NotFound(m) => BranchErrorV::NotFound(m@),
            BranchError::NotOnMain => BranchErrorV::NotOnMain,
            BranchError::MissingSnapshot(m) => BranchErrorV::MissingSnapshot(m@),
            BranchError::NoCommonAncestor(m) => BranchErrorV::NoCommonAncestor(m@),
            BranchError::Conflicts(v) => BranchErrorV::Conflicts(strs_view(v@)),
        }
    }
}

/// `a, b, c`.
pub open spec fn join_ids(ids: Seq<Seq<char>>) -> Seq<char>
    decreases ids.len(),
{
    if ids.len() == 0 {
        Seq::empty()
    } else if ids.len() == 1 {
        ids[0]
    } else {
        join_ids(ids.drop_last()) + ", "@ + ids.last()
    }
}

pub open spec fn branch_error_text(e: BranchErrorV) -> Seq<char> {
    match e {
        BranchErrorV::Store(s) => crate::engine::store_error_text(s),
        BranchErrorV::NotFound(m) => "branch not found: "@ + m,
        BranchErrorV::NotOnMain => "branch operation requires main to be checked out"@,
        BranchErrorV::MissingSnapshot(m) => "snapshot missing for revision "@ + m,
        BranchErrorV::NoCommonAncestor(m) => "no common ancestor for branch "@ + m,
        BranchErrorV::Conflicts(ids) => "merge conflict in nodes: "@ + join_ids(ids),
    }
}

impl BranchError {
    /// The human-readable message.
    pub fn message(&self) -> (r: String)
        ensures
            r@ == branch_error_text(self@),
    {
        match self {
            BranchError::Store(e) => e.message(),
            BranchError::NotFound(m) => {
                let mut s = owned("branch not found: ");
                s.append(m.as_str());
                s
            },
            BranchError::NotOnMain => owned("branch operation requires main to be checked out"),
            BranchError::MissingSnapshot(m) => {
                let mut s = owned("snapshot missing for revision ");
                s.append(m.as_str());
                s
            },
            BranchError::NoCommonAncestor(m) => {
                let mut s = owned("no common ancestor for branch ");
                s.append(m.as_str());
                s
            },
            BranchError::Conflicts(ids) => {
                let mut s = owned("merge conflict in nodes: ");
                let mut i: usize = 0;
                while i < ids.len()
                    invariant
                        i <= ids@.len(),
                        s@ == "merge conflict in nodes: "@ + join_ids(strs_view(ids@).take(i as int)),
                    decreases ids@.len() - i,
                {
                    proof {
                        assert(strs_view(ids@).take(i + 1).drop_last() =~= strs_view(ids@).take(i as int));
                        assert(strs_view(ids@).take(i + 1).last() == ids@[i as int]@);
                        if i == 0 {
                            assert(strs_view(ids@).take(1)[0] == ids@[0]@);
                            assert(join_ids(strs_view(ids@).take(0)) =~= Seq::<char>::empty());
                        }
                    }
                    if i > 0 {
                        s.append(", ");
                    }
                    s.append(ids[i].as_str());
                    i = i + 1;
                }
                assert(strs_view(ids@).take(ids@.len() as int) =~= strs_view(ids@));
                s
            },
        }
    }
}

/// Whether revision row `r` belongs to branch `name` (`main`: no label).
pub open spec fn on_branch(r: RevisionRowV, name: Seq<char>) -> bool {
    if name == "main"@ { r.rev.branch is None } else { r.rev.branch == Some(name) }
}

/// The id and number of the highest-numbered row on branch `name`; among
/// rows with the same number the earliest stored wins.
pub open spec fn tip_of(rows: Seq<RevisionRowV>, name: Seq<char>) -> Option<(Seq<char>, nat)>
    decreases rows.len(),
{
    if rows.len() == 0 {
        None
    } else {
        let prev = tip_of(rows.drop_last(), name);
        let r = rows.last();
        if !on_branch(r, name) {
            prev
        } else {
            match prev {
                Some(p) => if rev_number(r.rev.id) > p.1 { Some((r.rev.id, rev_number(r.rev.id))) } else { prev },
                None => Some((r.rev.id, rev_number(r.rev.id))),
            }
        }
    }
}

/// The tip of branch `name` in document `doc`.
pub open spec fn branch_head_spec(s: Seq<DocTablesV>, doc: Seq<char>, name: Seq<char>) -> Result<Seq<char>, BranchErrorV> {
    match doc_tables(s, doc) {
        None => Err(BranchErrorV::NotFound(name)),
        Some(t) => match tip_of(t.revisions, name) {
            None => Err(BranchErrorV::NotFound(name)),
            Some(p) => Ok(p.0),
        },
    }
}

impl DocTables {
    /// The tip of branch `name`.
    pub fn branch_tip(&self, name: &str) -> (r: Option<String>)
        ensures
            match tip_of(self@.revisions, name@) {
                None => r is None,
                Some(p) => r matches Some(x) && x@ == p.0,
            },
    {
        let is_main = str_eq(name, "main");
        proof {
            reveal_strlit("main");
        }
        let mut best: Option<(usize, u64)> = None;
        let mut i: usize = 0;
        while i < self.revisions.len()
            invariant
                i <= self.revisions@.len(),
                self@.revisions.len() == self.revisions@.len(),
                is_main == (name@ == "main"@),
                match tip_of(self@.revisions.take(i as int), name@) {
                    None => best is None,
                    Some(p) => best matches Some(b) && b.0 < i && self@.revisions[b.0 as int].rev.id == p.0 && b.1 == p.1,
                },
            decreases self.revisions@.len() - i,
        {
            let row = &self.revisions[i];
            proof {
                assert(self@.revisions[i as int] == row@);
                assert(self@.revisions.take(i + 1).drop_last() =~= self@.revisions.take(i as int));
                assert(self@.revisions.take(i + 1).last() == row@);
            }
            let on = if is_main {
                row.revision.branch.is_none()
            } else {
                match &row.revision.branch {
                    Some(b) => str_eq(b.as_str(), name),
                    None => false,
                }
            };
            if on {
                let n = revision_number(row.revision.id.as_str());
                match best {
                    Some(b) => {
                        if n > b.1 {
                            best = Some((i, n));
                        }
                    },
                    None => {
                        best = Some((i, n));
                    },
                }
            }
            i = i + 1;
        }
        assert(self@.revisions.take(self@.revisions.len() as int) =~= self@.revisions);
        match best {
            Some(b) => {
                assert(self@.revisions[b.0 as int] == self.revisions@[b.0 as int]@);
                Some(owned(self.revisions[b.0].revision.id.as_str()))
            },
            None => None,
        }
    }
}

/// The tip of branch `name` (`main`: the highest-numbered unlabelled revision).
pub fn branch_head(store: &Store, doc_id: &str, name: &str) -> (r: Result<String, BranchError>)
    ensures
        match branch_head_spec(store@, doc_id@, name@) {
            Ok(id) => r matches Ok(x) && x@ == id,
            Err(e) => r matches Err(x) && x@ == e,
        },
{
    match store.tables(doc_id) {
        None => Err(BranchError::NotFound(owned(name))),
        Some(t) => match t.branch_tip(name) {
            Some(x) => Ok(x),
            None => Err(BranchError::NotFound(owned(name))),
        },
    }
}

/// Checking out branch `name`: the live nodes become the tip's snapshot and
/// the tip becomes head. Gives the new tables and the tip.
pub open spec fn checkout_spec(s: Seq<DocTablesV>, doc: Seq<char>, name: Seq<char>) -> Result<(DocTablesV, Seq<char>), BranchErrorV> {
    match branch_head_spec(s, doc, name) {
        Err(e) => Err(e),
        Ok(tip) => {
            let t = doc_tables(s, doc)->0;
            match snapshot_spec(t, tip) {
                None => Err(BranchErrorV::MissingSnapshot(tip)),
                Some(nodes) => match insert_nodes_spec(DocTablesV { nodes: Seq::empty(), ..t }, nodes, nodes.len()) {
                    Err(e) => Err(BranchErrorV::Store(e)),
                    Ok(t1) => Ok((advance_head_spec(t1, tip), tip)),
                },
            }
        },
    }
}

impl DocTables {
    /// Replace the live nodes by `nodes`, inserted in order; refused at the
    /// first id taken twice.
    pub fn replace_nodes(&mut self, nodes: &Vec<Node>) -> (r: Result<(), StoreError>)
        ensures
            match insert_nodes_spec(DocTablesV { nodes: Seq::empty(), ..old(self)@ }, nodes_view(nodes@), nodes@.len()) {
                Ok(t) => r is Ok && final(self)@ == t,
                Err(e) => r matches Err(e2) && e2@ == e,
            },
    {
        let ghost nv = nodes_view(nodes@);
        self.nodes = Vec::new();
        let ghost t0 = self@;
        assert(t0.nodes =~= Seq::<crate::store::NodeRowV>::empty());
        assert(t0 =~= DocTablesV { nodes: Seq::empty(), ..old(self)@ });
        let mut i: usize = 0;
        while i < nodes.len()
            invariant
                i <= nodes@.len(),
                nv == nodes_view(nodes@),
                t0 == (DocTablesV { nodes: Seq::empty(), ..old(self)@ }),
                insert_nodes_spec(t0, nv, i as nat) == Ok::<DocTablesV, StoreErrorV>(self@),
            decreases nodes@.len() - i,
        {
            assert(nv[i as int] == nodes@[i as int]@);
            let ghost tb = self@;
            match self.insert_node(&nodes[i]) {
                Ok(()) => {},
                Err(e) => {
                    proof {
                        assert(insert_nodes_spec(t0, nv, (i + 1) as nat) == crate::store::insert_node_spec(tb, nv[i as int]));
                        lemma_insert_nodes_err(t0, nv, (i + 1) as nat, nv.len());
                    }
                    return Err(e);
                },
            }
            i = i + 1;
        }
        Ok(())
    }
}

/// Switch the live nodes and head to the tip of branch `name`; no revision
/// is created. Gives the tip.
pub fn checkout_branch(store: &mut Store, doc_id: &str, name: &str) -> (r: Result<String, BranchError>)
    ensures
        match checkout_spec(old(store)@, doc_id@, name@) {
            Ok((t, tip)) => r matches Ok(x) && x@ == tip && final(store)@ == with_tables(old(store)@, doc_id@, t),
            Err(e) => r matches Err(x) && x@ == e && final(store)@ == old(store)@,
        },
{
    let tip = branch_head(store, doc_id, name)?;
    let nodes = match store.load_snapshot(doc_id, tip.as_str()) {
        Some(v) => v,
        None => {
            return Err(BranchError::MissingSnapshot(tip));
        },
    };
    let ghost s0 = store@;
    let (i, original) = match store.checkout_tables(doc_id) {
        Some(p) => p,
        None => {
            return Err(BranchError::NotOnMain);
        },
    };
    let mut work = original.clone_tables();
    match work.replace_nodes(&nodes) {
        Ok(()) => {
            work.advance_head(tip.as_str());
            store.restore_tables(i, work);
            Ok(tip)
        },
        Err(e) => {
            store.restore_tables(i, original);
            assert(store@ =~= s0);
            Err(BranchError::Store(e))
        },
    }
}

/// The branch of the head revision (`None`: main, or no head).
pub open spec fn head_branch_spec(t: DocTablesV) -> Option<Seq<char>> {
    match head_spec(t) {
        None => None,
        Some(h) => branch_spec(t, h),
    }
}

/// The branch label of the head revision of `doc_id`.
pub fn head_branch(store: &Store, doc_id: &str) -> (r: Option<String>)
    ensures
        match doc_tables(store@, doc_id@) {
            None => r is None,
            Some(t) => opt_str_view(r) == head_branch_spec(t),
        },
{
    match store.tables(doc_id) {
        None => None,
        Some(t) => match t.head_revision() {
            None => None,
            Some(h) => t.get_branch(h.as_str()),
        },
    }
}

/// Every parent of a revision in `ids`.
pub open spec fn parents_of(t: DocTablesV, ids: Set<Seq<char>>) -> Set<Seq<char>> {
    Set::new(|p: Seq<char>| exists|y: Seq<char>| ids.contains(y) && #[trigger] parents_spec(t, y).contains(p))
}

/// The revisions reachable from `start` in at most `k` parent steps.
pub open spec fn reach(t: DocTablesV, start: Seq<char>, k: nat) -> Set<Seq<char>>
    decreases k,
{
    if k == 0 {
        set![start]
    } else {
        let r = reach(t, start, (k - 1) as nat);
        r.union(parents_of(t, r))
    }
}

/// `start` and every revision reachable from it through parent links (a
/// path without repeats has at most one step per stored revision).
pub open spec fn ancestors_spec(t: DocTablesV, start: Seq<char>) -> Set<Seq<char>> {
    reach(t, start, t.revisions.len())
}

pub proof fn lemma_parents_step(t: DocTablesV, s: Seq<Seq<char>>, j: int)
    requires
        0 <= j < s.len(),
    ensures
        parents_of(t, s.take(j + 1).to_set()) == parents_of(t, s.take(j).to_set()).union(parents_spec(t, s[j]).to_set()),
{
    let a = s.take(j).to_set();
    let b = s.take(j + 1).to_set();
    assert(b =~= a.insert(s[j])) by {
        assert forall|x: Seq<char>| b.contains(x) <==> a.insert(s[j]).contains(x) by {
            if b.contains(x) {
                let i = choose|i: int| 0 <= i < j + 1 && #[trigger] s.take(j + 1)[i] == x;
                if i < j {
                    assert(s.take(j)[i] == x);
                }
            }
            if a.contains(x) {
                let i = choose|i: int| 0 <= i < j && #[trigger] s.take(j)[i] == x;
                assert(s.take(j + 1)[i] == x);
            }
            if x == s[j] {
                assert(s.take(j + 1)[j] == x);
            }
        }
    }
    assert forall|p: Seq<char>| parents_of(t, b).contains(p) <==> parents_of(t, a).union(parents_spec(t, s[j]).to_set()).contains(p) by {
        if parents_of(t, b).contains(p) {
            let y = choose|y: Seq<char>| b.contains(y) && #[trigger] parents_spec(t, y).contains(p);
            if y != s[j] {
                assert(a.contains(y));
            }
        }
        if parents_spec(t, s[j]).to_set().contains(p) {
            assert(b.contains(s[j]));
        }
    }
    assert(parents_of(t, b) =~= parents_of(t, a).union(parents_spec(t, s[j]).to_set()));
}

/// Whether `v` holds `x`.
pub fn holds(v: &Vec<String>, x: &str) -> (r: bool)
    ensures
        r == strs_view(v@).contains(x@),
{
    let mut i: usize = 0;
    while i < v.len()
        invariant
            i <= v@.len(),
            forall|j: int| 0 <= j < i ==> strs_view(v@)[j] != x@,
        decreases v@.len() - i,
    {
        if str_eq(v[i].as_str(), x) {
            assert(strs_view(v@)[i as int] == x@);
            return true;
        }
        i = i + 1;
    }
    false
}

impl DocTables {
    /// `start` and every revision reachable from it through parent links.
    pub fn ancestors(&self, start: &str) -> (r: Vec<String>)
        ensures
            strs_view(r@).to_set() == ancestors_spec(self@, start@),
    {
        let mut seen: Vec<String> = Vec::new();
        seen.push(owned(start));
        assert(strs_view(seen@).to_set() =~= set![start@]) by {
            assert(strs_view(seen@)[0] == start@);
        }
        let n = self.revisions.len();
        let mut k: usize = 0;
        while k < n
            invariant
                k <= n,
                n == self@.revisions.len(),
                strs_view(seen@).to_set() == reach(self@, start@, k as nat),
            decreases n - k,
        {
            let ghost cur = strs_view(seen@);
            let mut next: Vec<String> = Vec::new();
            let mut c: usize = 0;
            while c < seen.len()
                invariant
                    c <= seen@.len(),
                    cur == strs_view(seen@),
                    strs_view(next@) == cur.take(c as int),
                decreases seen@.len() - c,
            {
                next.push(seen[c].clone());
                proof {
                    crate::text::lemma_take_push(cur, c as int);
                    assert(strs_view(next@) =~= cur.take(c + 1));
                }
                c = c + 1;
            }
            assert(cur.take(cur.len() as int) =~= cur);
            assert(cur.take(0).to_set() =~= Set::<Seq<char>>::empty());
            assert(parents_of(self@, Set::<Seq<char>>::empty()) =~= Set::<Seq<char>>::empty());
            assert(strs_view(next@).to_set() =~= cur.to_set().union(parents_of(self@, cur.take(0).to_set())));
            let mut j: usize = 0;
            while j < seen.len()
                invariant
                    j <= seen@.len(),
                    cur == strs_view(seen@),
                    strs_view(next@).to_set() == cur.to_set().union(parents_of(self@, cur.take(j as int).to_set())),
                decreases seen@.len() - j,
            {
                let ps = self.list_parents(seen[j].as_str());
                let ghost pv = strs_view(ps@);
                let ghost base = cur.to_set().union(parents_of(self@, cur.take(j as int).to_set()));
                assert(pv.take(0).to_set() =~= Set::<Seq<char>>::empty());
                assert(base.union(pv.take(0).to_set()) =~= base);
                let mut m: usize = 0;
                while m < ps.len()
                    invariant
                        m <= ps@.len(),
                        pv == strs_view(ps@),
                        strs_view(next@).to_set() == base.union(pv.take(m as int).to_set()),
                    decreases ps@.len() - m,
                {
                    let ghost before = strs_view(next@);
                    proof {
                        crate::text::lemma_take_push(pv, m as int);
                    }
                    assert(pv.take(m + 1).to_set() =~= pv.take(m as int).to_set().insert(pv[m as int])) by {
                        assert forall|x: Seq<char>| #[trigger] pv.take(m + 1).to_set().contains(x) <==> pv.take(m as int).to_set().insert(pv[m as int]).contains(x) by {
                            if pv.take(m + 1).contains(x) {
                                let i = choose|i: int| 0 <= i < m + 1 && #[trigger] pv.take(m + 1)[i] == x;
                                if i < m {
                                    assert(pv.take(m as int)[i] == x);
                                }
                            }
                            if pv.take(m as int).contains(x) {
                                let i = choose|i: int| 0 <= i < m && #[trigger] pv.take(m as int)[i] == x;
                                assert(pv.take(m + 1)[i] == x);
                            }
                            if x == pv[m as int] {
                                assert(pv.take(m + 1)[m as int] == x);
                            }
                        }
                    }
                    if !holds(&next, ps[m].as_str()) {
                        next.push(ps[m].clone());
                        proof {
                            assert(strs_view(next@) =~= before.push(pv[m as int]));
                            assert forall|x: Seq<char>| #[trigger] strs_view(next@).to_set().contains(x) <==> before.to_set().insert(pv[m as int]).contains(x) by {
                                if strs_view(next@).contains(x) {
                                    let i = choose|i: int| 0 <= i < strs_view(next@).len() && #[trigger] strs_view(next@)[i] == x;
                                    if i < before.len() {
                                        assert(before[i] == x);
                                    }
                                }
                                if before.contains(x) {
                                    let i = choose|i: int| 0 <= i < before.len() && #[trigger] before[i] == x;
                                    assert(strs_view(next@)[i] == x);
                                }
                                if x == pv[m as int] {
                                    assert(strs_view(next@)[before.len() as int] == x);
                                }
                            }
                            assert(strs_view(next@).to_set() =~= before.to_set().insert(pv[m as int]));
                        }
                    } else {
                        assert(before.to_set().contains(pv[m as int]));
                    }
                    assert(strs_view(next@).to_set() =~= base.union(pv.take(m + 1).to_set()));
                    m = m + 1;
                }
                assert(pv.take(pv.len() as int) =~= pv);
                proof {
                    lemma_parents_step(self@, cur, j as int);
                }
                assert(strs_view(next@).to_set() =~= cur.to_set().union(parents_of(self@, cur.take(j + 1).to_set())));
                j = j + 1;
            }
            assert(cur.take(cur.len() as int) =~= cur);
            seen = next;
            k = k + 1;
        }
        seen
    }
}

/// The node a map built from `nodes` keeps for `id`: the last with that id.
pub open spec fn last_with(nodes: Seq<NodeV>, id: Seq<char>) -> Option<NodeV>
    decreases nodes.len(),
{
    if nodes.len() == 0 {
        None
    } else if nodes.last().id == id {
        Some(nodes.last())
    } else {
        last_with(nodes.drop_last(), id)
    }
}

/// Equality of optional nodes, nodes compared field by field.
pub open spec fn opt_node_equal(a: Option<NodeV>, b: Option<NodeV>) -> bool {
    match (a, b) {
        (None, None) => true,
        (Some(x), Some(y)) => node_equal(x, y),
        _ => false,
    }
}

/// The three-way choice for one node id: where one side left the base
/// version alone the other side's version wins; where both changed it
/// differently there is a conflict (`None`).
pub open spec fn pick(b: Option<NodeV>, m: Option<NodeV>, s: Option<NodeV>) -> Option<Option<NodeV>> {
    if opt_node_equal(m, s) || opt_node_equal(s, b) {
        Some(m)
    } else if opt_node_equal(m, b) {
        Some(s)
    } else {
        None
    }
}

pub open spec fn pick_at(base: Seq<NodeV>, main: Seq<NodeV>, src: Seq<NodeV>, id: Seq<char>) -> Option<Option<NodeV>> {
    pick(last_with(base, id), last_with(main, id), last_with(src, id))
}

/// The merged nodes, in key order.
pub open spec fn merged_nodes(keys: Seq<Seq<char>>, base: Seq<NodeV>, main: Seq<NodeV>, src: Seq<NodeV>) -> Seq<NodeV>
    decreases keys.len(),
{
    if keys.len() == 0 {
        Seq::empty()
    } else {
        let rest = merged_nodes(keys.drop_last(), base, main, src);
        match pick_at(base, main, src, keys.last()) {
            Some(Some(n)) => rest.push(n),
            _ => rest,
        }
    }
}

/// The ids whose merged version differs from main's, in key order.
pub open spec fn changed_ids(keys: Seq<Seq<char>>, base: Seq<NodeV>, main: Seq<NodeV>, src: Seq<NodeV>) -> Seq<Seq<char>>
    decreases keys.len(),
{
    if keys.len() == 0 {
        Seq::empty()
    } else {
        let rest = changed_ids(keys.drop_last(), base, main, src);
        let k = keys.last();
        match pick_at(base, main, src, k) {
            Some(r) => if opt_node_equal(r, last_with(main, k)) { rest } else { rest.push(k) },
            None => rest,
        }
    }
}

/// The ids both sides changed differently, in key order.
pub open spec fn conflict_ids(keys: Seq<Seq<char>>, base: Seq<NodeV>, main: Seq<NodeV>, src: Seq<NodeV>) -> Seq<Seq<char>>
    decreases keys.len(),
{
    if keys.len() == 0 {
        Seq::empty()
    } else {
        let rest = conflict_ids(keys.drop_last(), base, main, src);
        if pick_at(base, main, src, keys.last()) is None { rest.push(keys.last()) } else { rest }
    }
}

/// The ids of the three snapshots together, distinct and ascending.
pub open spec fn merge_keys(base: Seq<NodeV>, main: Seq<NodeV>, src: Seq<NodeV>) -> Seq<Seq<char>> {
    sorted_ids(base + main + src)
}

/// The result of merging `src` into `main` over their common `base`.
pub struct ThreeWay {
    pub merged: Vec<Node>,
    pub changed: Vec<String>,
    pub conflicts: Vec<String>,
}

/// The position of the last node of `nodes` with id `id`.
pub(crate) fn last_index(nodes: &Vec<Node>, id: &str) -> (r: Option<usize>)
    ensures
        match r {
            Some(i) => i < nodes@.len() && last_with(nodes_view(nodes@), id@) == Some(nodes@[i as int]@),
            None => last_with(nodes_view(nodes@), id@) is None,
        },
{
    let ghost nv = nodes_view(nodes@);
    let mut i = nodes.len();
    assert(nv.take(nv.len() as int) =~= nv);
    while i > 0
        invariant
            i <= nodes@.len(),
            nv == nodes_view(nodes@),
            last_with(nv, id@) == last_with(nv.take(i as int), id@),
        decreases i,
    {
        let k = i - 1;
        assert(nv.take(i as int).drop_last() =~= nv.take(k as int));
        assert(nv.take(i as int).last() == nodes@[k as int]@);
        if str_eq(nodes[k].id.as_str(), id) {
            return Some(k);
        }
        i = k;
    }
    assert(nv.take(0) =~= Seq::<NodeV>::empty());
    None
}

fn opt_node_same(a: &Option<&Node>, b: &Option<&Node>) -> (r: bool)
    ensures
        r == opt_node_equal(
            match *a { Some(x) => Some(x@), None => None },
            match *b { Some(x) => Some(x@), None => None },
        ),
{
    match (a, b) {
        (Some(x), Some(y)) => x.same_as(y),
        (None, None) => true,
        _ => false,
    }
}

pub(crate) fn node_at<'a>(nodes: &'a Vec<Node>, id: &str) -> (r: Option<&'a Node>)
    ensures
        match r { Some(x) => Some(x@), None => None } == last_with(nodes_view(nodes@), id@),
{
    match last_index(nodes, id) {
        Some(i) => Some(&nodes[i]),
        None => None,
    }
}

/// Merge `src` into `main` over their common ancestor `base`, node by node
/// in ascending id order.
pub fn three_way(base: &Vec<Node>, main: &Vec<Node>, src: &Vec<Node>) -> (r: ThreeWay)
    ensures
        ({
            let (b, m, s) = (nodes_view(base@), nodes_view(main@), nodes_view(src@));
            let keys = merge_keys(b, m, s);
            &&& nodes_view(r.merged@) == merged_nodes(keys, b, m, s)
            &&& strs_view(r.changed@) == changed_ids(keys, b, m, s)
            &&& strs_view(r.conflicts@) == conflict_ids(keys, b, m, s)
        }),
{
    let ghost (b, m, s) = (nodes_view(base@), nodes_view(main@), nodes_view(src@));
    let mut all = crate::store::clone_nodes(base);
    let mut more = crate::store::clone_nodes(main);
    all.append(&mut more);
    let mut more = crate::store::clone_nodes(src);
    all.append(&mut more);
    assert(nodes_view(all@) =~= b + m + s);
    let keys = crate::history::touched_ids(&all);
    let ghost kv = strs_view(keys@);
    let mut merged: Vec<Node> = Vec::new();
    let mut changed: Vec<String> = Vec::new();
    let mut conflicts: Vec<String> = Vec::new();
    let mut i: usize = 0;
    while i < keys.len()
        invariant
            i <= keys@.len(),
            kv == strs_view(keys@),
            b == nodes_view(base@),
            m == nodes_view(main@),
            s == nodes_view(src@),
            nodes_view(merged@) == merged_nodes(kv.take(i as int), b, m, s),
            strs_view(changed@) == changed_ids(kv.take(i as int), b, m, s),
            strs_view(conflicts@) == conflict_ids(kv.take(i as int), b, m, s),
        decreases keys@.len() - i,
    {
        let id = keys[i].as_str();
        proof {
            assert(kv.take(i + 1).drop_last() =~= kv.take(i as int));
            assert(kv.take(i + 1).last() == id@);
        }
        let bn = node_at(base, id);
        let mn = node_at(main, id);
        let sn = node_at(src, id);
        let take_main = opt_node_same(&mn, &sn) || opt_node_same(&sn, &bn);
        let take_src = !take_main && opt_node_same(&mn, &bn);
        if !take_main && !take_src {
            let ghost c0 = strs_view(conflicts@);
            conflicts.push(owned(id));
            assert(strs_view(conflicts@) =~= c0.push(id@));
        } else {
            let result = if take_main { mn } else { sn };
            if !opt_node_same(&result, &mn) {
                let ghost c0 = strs_view(changed@);
                changed.push(owned(id));
                assert(strs_view(changed@) =~= c0.push(id@));
            }
            match result {
                Some(n) => {
                    let ghost m0 = nodes_view(merged@);
                    merged.push(n.clone());
                    assert(nodes_view(merged@) =~= m0.push(n@));
                },
                None => {},
            }
        }
        i = i + 1;
    }
    assert(kv.take(kv.len() as int) =~= kv);
    ThreeWay { merged, changed, conflicts }
}

/// Whether some node of `nodes` has id `id`.
pub open spec fn has_id(nodes: Seq<NodeV>, id: Seq<char>) -> bool {
    exists|i: int| 0 <= i < nodes.len() && #[trigger] nodes[i].id == id
}

pub proof fn lemma_last_with_none(nodes: Seq<NodeV>, id: Seq<char>)
    ensures
        last_with(nodes, id) is None <==> !has_id(nodes, id),
    decreases nodes.len(),
{
    if nodes.len() > 0 {
        lemma_last_with_none(nodes.drop_last(), id);
        if has_id(nodes, id) && nodes.last().id != id {
            let i = choose|i: int| 0 <= i < nodes.len() && #[trigger] nodes[i].id == id;
            assert(nodes.drop_last()[i].id == id);
        }
        if has_id(nodes.drop_last(), id) {
            let i = choose|i: int| 0 <= i < nodes.drop_last().len() && #[trigger] nodes.drop_last()[i].id == id;
            assert(nodes[i].id == id);
        }
        if nodes.last().id == id {
            assert(nodes[nodes.len() - 1].id == id);
        }
    }
}

/// A node whose parent is not among `nodes`.
pub open spec fn stranded_in(nodes: Seq<NodeV>) -> spec_fn(NodeV) -> bool {
    |n: NodeV| n.parent is Some && !has_id(nodes, n.parent->0)
}

/// The first node of `nodes` left under a parent that is not there.
pub fn find_stranded(nodes: &Vec<Node>) -> (r: Option<String>)
    ensures
        ({
            let nv = nodes_view(nodes@);
            let p = first_pos(nv, stranded_in(nv));
            match r {
                Some(id) => p >= 0 && id@ == nv[p].id,
                None => p < 0,
            }
        }),
{
    let ghost nv = nodes_view(nodes@);
    proof {
        lemma_first_pos(nv, stranded_in(nv));
    }
    let mut i: usize = 0;
    while i < nodes.len()
        invariant
            i <= nodes@.len(),
            nv == nodes_view(nodes@),
            forall|j: int| 0 <= j < i ==> !stranded_in(nv)(#[trigger] nv[j]),
        decreases nodes@.len() - i,
    {
        assert(nv[i as int] == nodes@[i as int]@);
        let bad = match &nodes[i].parent {
            Some(p) => {
                proof {
                    lemma_last_with_none(nv, p@);
                }
                last_index(nodes, p.as_str()).is_none()
            },
            None => false,
        };
        if bad {
            proof {
                lemma_first_pos_at(nv, stranded_in(nv), i as int);
            }
            return Some(owned(nodes[i].id.as_str()));
        }
        i = i + 1;
    }
    None
}

/// Walk the first-parent chain from `cursor` to the first revision in
/// `anc`, for at most `fuel` steps.
pub open spec fn base_walk(t: DocTablesV, anc: Set<Seq<char>>, cursor: Seq<char>, fuel: nat) -> Option<Seq<char>>
    decreases fuel,
{
    if anc.contains(cursor) {
        Some(cursor)
    } else if fuel == 0 {
        None
    } else {
        let ps = parents_spec(t, cursor);
        if ps.len() == 0 { None } else { base_walk(t, anc, ps[0], (fuel - 1) as nat) }
    }
}

/// `OP-MERGE-{seq}`.
pub open spec fn merge_op_id(seq: nat) -> Seq<char> {
    "OP-MERGE-"@ + decimal(seq)
}

/// The revision message: the given reason, else `merge {name} into main`.
pub open spec fn merge_message(name: Seq<char>, reason: Option<Seq<char>>) -> Seq<char> {
    match reason {
        Some(r) => r,
        None => "merge "@ + name + " into main"@,
    }
}

pub open spec fn opt_hash(n: Option<NodeV>) -> Option<Seq<char>> {
    match n {
        Some(x) => Some(content_hash_of(x.content)),
        None => None,
    }
}

/// The change recording that the merge revision `rev` changed node `id`.
pub open spec fn merge_change(rev: Seq<char>, name: Seq<char>, main: Seq<NodeV>, merged: Seq<NodeV>, id: Seq<char>) -> ChangeV {
    ChangeV {
        id: change_id(rev, id),
        revision: rev,
        node: id,
        change_type: ChangeType::Merge,
        before: opt_hash(last_with(main, id)),
        after: opt_hash(last_with(merged, id)),
        summary: Some("merged from "@ + name),
    }
}

/// Recording the first `k` changed ids, stopping at the first refusal.
pub open spec fn insert_merge_changes(
    t: DocTablesV,
    rev: Seq<char>,
    name: Seq<char>,
    main: Seq<NodeV>,
    merged: Seq<NodeV>,
    ids: Seq<Seq<char>>,
    k: nat,
) -> Result<DocTablesV, StoreErrorV>
    decreases k,
{
    if k == 0 {
        Ok(t)
    } else {
        match insert_merge_changes(t, rev, name, main, merged, ids, (k - 1) as nat) {
            Err(e) => Err(e),
            Ok(t1) => insert_change_spec(t1, merge_change(rev, name, main, merged, ids[k - 1])),
        }
    }
}

pub proof fn lemma_merge_changes_err(
    t: DocTablesV,
    rev: Seq<char>,
    name: Seq<char>,
    main: Seq<NodeV>,
    merged: Seq<NodeV>,
    ids: Seq<Seq<char>>,
    i: nat,
    k: nat,
)
    requires
        i <= k,
        insert_merge_changes(t, rev, name, main, merged, ids, i) is Err,
    ensures
        insert_merge_changes(t, rev, name, main, merged, ids, k) == insert_merge_changes(t, rev, name, main, merged, ids, i),
    decreases k,
{
    if k > i {
        lemma_merge_changes_err(t, rev, name, main, merged, ids, i, (k - 1) as nat);
    }
}

/// The audit record of merging `source` into `main_rev`.
pub open spec fn merge_record(op_id: Seq<char>, main_rev: Seq<char>, source: Seq<char>, msg: Seq<char>, ts: Seq<char>) -> OperationRecordV {
    OperationRecordV {
        id: op_id,
        op_type: OperationType::Merge,
        target: None,
        expected_revision: main_rev,
        target_revision: Some(source),
        actor: crate::provenance::unnamed_human(),
        patch: None,
        reason: Some(msg),
        created_at: ts,
    }
}

/// The first steps of committing a clean merge: live nodes replaced by
/// `merged`, the operation record, and a head revision whose parents are
/// `main_rev` then `source`.
pub open spec fn merge_prefix(
    t: DocTablesV,
    main_rev: Seq<char>,
    source: Seq<char>,
    msg: Seq<char>,
    merged: Seq<NodeV>,
    ts: Seq<char>,
) -> Result<DocTablesV, BranchErrorV> {
    let seq = next_seq_spec(t);
    let rev = revision_text(seq);
    let op_id = merge_op_id(seq);
    match insert_nodes_spec(DocTablesV { nodes: Seq::empty(), ..t }, merged, merged.len()) {
        Err(e) => Err(BranchErrorV::Store(e)),
        Ok(t1) => if op_exists(t1, op_id) {
            Err(BranchErrorV::Store(StoreErrorV::Constraint(unique_operations_msg())))
        } else {
            let t2 = DocTablesV { operations: t1.operations.push(merge_record(op_id, main_rev, source, msg, ts)), ..t1 };
            match insert_revision_spec(t2, RevisionV {
                id: rev,
                parent: Some(main_rev),
                operation: op_id,
                created_at: ts,
                message: Some(msg),
                branch: None,
            }, true) {
                Err(e) => Err(BranchErrorV::Store(e)),
                Ok(t3) => Ok(advance_head_spec(add_parent_spec(t3, rev, source), rev)),
            }
        },
    }
}

/// Committing a clean merge: `merge_prefix`, then one change per changed id
/// and a snapshot of the merged nodes.
pub open spec fn merge_commit(
    t: DocTablesV,
    main_rev: Seq<char>,
    source: Seq<char>,
    name: Seq<char>,
    msg: Seq<char>,
    main: Seq<NodeV>,
    merged: Seq<NodeV>,
    changed: Seq<Seq<char>>,
    ts: Seq<char>,
) -> Result<DocTablesV, BranchErrorV> {
    let rev = revision_text(next_seq_spec(t));
    match merge_prefix(t, main_rev, source, msg, merged, ts) {
        Err(e) => Err(e),
        Ok(t4) => match insert_merge_changes(t4, rev, name, main, merged, changed, changed.len()) {
            Err(e) => Err(BranchErrorV::Store(e)),
            Ok(t5) => Ok(save_snapshot_spec(t5, rev, merged, ts)),
        },
    }
}

pub proof fn lemma_merge_changes_frame(
    t1: DocTablesV,
    t2: DocTablesV,
    rev: Seq<char>,
    name: Seq<char>,
    main: Seq<NodeV>,
    merged: Seq<NodeV>,
    ids: Seq<Seq<char>>,
    k: nat,
)
    requires
        t1.changes == t2.changes,
    ensures
        insert_merge_changes(t1, rev, name, main, merged, ids, k) is Err
            ==> insert_merge_changes(t2, rev, name, main, merged, ids, k) == insert_merge_changes(t1, rev, name, main, merged, ids, k),
        insert_merge_changes(t1, rev, name, main, merged, ids, k) is Ok
            ==> insert_merge_changes(t2, rev, name, main, merged, ids, k) is Ok
            && insert_merge_changes(t1, rev, name, main, merged, ids, k)->Ok_0.changes == insert_merge_changes(t2, rev, name, main, merged, ids, k)->Ok_0.changes,
    decreases k,
{
    if k > 0 {
        lemma_merge_changes_frame(t1, t2, rev, name, main, merged, ids, (k - 1) as nat);
    }
}

/// Where committing a merge is refused, the refusal does not depend on the
/// timestamp.
pub proof fn lemma_merge_commit_err(
    t: DocTablesV,
    main_rev: Seq<char>,
    source: Seq<char>,
    name: Seq<char>,
    msg: Seq<char>,
    main: Seq<NodeV>,
    merged: Seq<NodeV>,
    changed: Seq<Seq<char>>,
    ts1: Seq<char>,
    ts2: Seq<char>,
)
    requires
        merge_commit(t, main_rev, source, name, msg, main, merged, changed, ts1) is Err,
    ensures
        merge_commit(t, main_rev, source, name, msg, main, merged, changed, ts2)
            == merge_commit(t, main_rev, source, name, msg, main, merged, changed, ts1),
{
    let rev = revision_text(next_seq_spec(t));
    let p1 = merge_prefix(t, main_rev, source, msg, merged, ts1);
    let p2 = merge_prefix(t, main_rev, source, msg, merged, ts2);
    if p1 is Ok {
        assert(p2 is Ok);
        assert(p1->Ok_0.changes == p2->Ok_0.changes);
        lemma_merge_changes_frame(p1->Ok_0, p2->Ok_0, rev, name, main, merged, changed, changed.len());
    }
}

/// Merging branch `name` into main in document `doc`: the new tables and
/// the merge revision, or why not.
pub open spec fn merge_spec(s: Seq<DocTablesV>, doc: Seq<char>, name: Seq<char>, reason: Option<Seq<char>>, ts: Seq<char>) -> Result<(DocTablesV, Seq<char>), BranchErrorV> {
    if name == "main"@ || is_blank(name) {
        Err(BranchErrorV::NotFound(name))
    } else {
        match doc_tables(s, doc) {
            None => Err(BranchErrorV::NotFound("main"@)),
            Some(t) => if head_branch_spec(t) is Some {
                Err(BranchErrorV::NotOnMain)
            } else {
                match head_spec(t) {
                    None => Err(BranchErrorV::NotFound("main"@)),
                    Some(main_rev) => match tip_of(t.revisions, name) {
                        None => Err(BranchErrorV::NotFound(name)),
                        Some(tip) => {
                            let source = tip.0;
                            match base_walk(t, ancestors_spec(t, main_rev), source, t.revisions.len()) {
                                None => Err(BranchErrorV::NoCommonAncestor(name)),
                                Some(base) => match snapshot_spec(t, base) {
                                    None => Err(BranchErrorV::MissingSnapshot(base)),
                                    Some(b) => match snapshot_spec(t, main_rev) {
                                        None => Err(BranchErrorV::MissingSnapshot(main_rev)),
                                        Some(m) => match snapshot_spec(t, source) {
                                            None => Err(BranchErrorV::MissingSnapshot(source)),
                                            Some(sn) => {
                                                let keys = merge_keys(b, m, sn);
                                                let conflicts = conflict_ids(keys, b, m, sn);
                                                let merged = merged_nodes(keys, b, m, sn);
                                                let p = first_pos(merged, stranded_in(merged));
                                                if conflicts.len() > 0 {
                                                    Err(BranchErrorV::Conflicts(conflicts))
                                                } else if p >= 0 {
                                                    Err(BranchErrorV::Conflicts(seq![merged[p].id]))
                                                } else {
                                                    match merge_commit(t, main_rev, source, name, merge_message(name, reason), m, merged, changed_ids(keys, b, m, sn), ts) {
                                                        Err(e) => Err(e),
                                                        Ok(t2) => Ok((t2, revision_text(next_seq_spec(t)))),
                                                    }
                                                }
                                            },
                                        },
                                    },
                                },
                            }
                        },
                    },
                }
            },
        }
    }
}

/// The first revision along the first-parent chain from `source` that is
/// in `anc`.
fn find_base(t: &DocTables, anc: &Vec<String>, source: &str) -> (r: Option<String>)
    ensures
        opt_str_view(r) == base_walk(t@, strs_view(anc@).to_set(), source@, t@.revisions.len()),
{
    let ghost a = strs_view(anc@).to_set();
    let mut cursor = owned(source);
    let mut fuel = t.revisions.len();
    loop
        invariant
            a == strs_view(anc@).to_set(),
            base_walk(t@, a, source@, t@.revisions.len()) == base_walk(t@, a, cursor@, fuel as nat),
        decreases fuel,
    {
        if holds(anc, cursor.as_str()) {
            return Some(cursor);
        }
        if fuel == 0 {
            return None;
        }
        let ps = t.list_parents(cursor.as_str());
        if ps.len() == 0 {
            return None;
        }
        assert(strs_view(ps@)[0] == ps@[0]@);
        cursor = ps[0].clone();
        fuel = fuel - 1;
    }
}

impl DocTables {
    /// Commit a clean merge (see `merge_commit`) as revision `rev`.
    pub fn commit_merge(
        &mut self,
        main_rev: &str,
        source: &str,
        name: &str,
        msg: &str,
        main: &Vec<Node>,
        merged: &Vec<Node>,
        changed: &Vec<String>,
        rev: &RevisionId,
        op_id: &OpId,
    ) -> (r: Result<(), BranchError>)
        requires
            rev@ == revision_text(next_seq_spec(old(self)@)),
            op_id@ == merge_op_id(next_seq_spec(old(self)@)),
        ensures
            match merge_commit(old(self)@, main_rev@, source@, name@, msg@, nodes_view(main@), nodes_view(merged@), strs_view(changed@), final(self)@.revisions.last().rev.created_at) {
                Err(e) => r matches Err(e2) && e2@ == e,
                Ok(t) => r is Ok && final(self)@ == t,
            },
    {
        let ghost mv = nodes_view(main@);
        let ghost gv = nodes_view(merged@);
        let ghost cv = strs_view(changed@);
        if let Err(e) = self.replace_nodes(merged) {
            return Err(BranchError::Store(e));
        }
        if self.has_operation(op_id.as_str()) {
            return Err(BranchError::Store(StoreError::Constraint(owned(
                "UNIQUE constraint failed: operations.doc_id, operations.id",
            ))));
        }
        let ts = now();
        let rec = OperationRecord {
            id: op_id.clone(),
            op_type: OperationType::Merge,
            target: None,
            expected_revision: RevisionId::new(main_rev),
            target_revision: Some(RevisionId::new(source)),
            actor: crate::provenance::Provenance::human(None),
            patch: None,
            reason: Some(owned(msg)),
            created_at: ts.clone(),
        };
        assert(rec@ == merge_record(op_id@, main_rev@, source@, msg@, ts@));
        let _ = self.insert_operation(rec);
        let revision = Revision {
            id: rev.clone(),
            parent: Some(RevisionId::new(main_rev)),
            operation: op_id.clone(),
            created_at: ts.clone(),
            message: Some(owned(msg)),
            branch: None,
        };
        if let Err(e) = self.insert_revision(&revision, true) {
            return Err(BranchError::Store(e));
        }
        self.add_parent(rev.as_str(), source);
        self.advance_head(rev.as_str());
        let ghost t4 = self@;
        assert(t4.revisions.last().rev.created_at == ts@);
        let mut k: usize = 0;
        while k < changed.len()
            invariant
                k <= changed@.len(),
                mv == nodes_view(main@),
                gv == nodes_view(merged@),
                cv == strs_view(changed@),
                rev@ == revision_text(next_seq_spec(old(self)@)),
                merge_prefix(old(self)@, main_rev@, source@, msg@, gv, ts@) == Ok::<DocTablesV, BranchErrorV>(t4),
                insert_merge_changes(t4, rev@, name@, mv, gv, cv, k as nat) == Ok::<DocTablesV, StoreErrorV>(self@),
                self@.revisions == t4.revisions,
                t4.revisions.last().rev.created_at == ts@,
            decreases changed@.len() - k,
        {
            let id = changed[k].as_str();
            assert(cv[k as int] == id@);
            let mut cid = owned("CH-");
            cid.append(rev.as_str());
            cid.append("-");
            cid.append(id);
            let before = match node_at(main, id) {
                Some(n) => Some(HashRef { hash: content_hash(n.content.as_str()) }),
                None => None,
            };
            let after = match node_at(merged, id) {
                Some(n) => Some(HashRef { hash: content_hash(n.content.as_str()) }),
                None => None,
            };
            let mut summary = owned("merged from ");
            summary.append(name);
            let ch = Change {
                id: cid,
                revision: rev.clone(),
                node: crate::id::NodeId::from_validated(id),
                change_type: ChangeType::Merge,
                before,
                after,
                summary: Some(summary),
            };
            assert(ch@ == merge_change(rev@, name@, mv, gv, id@));
            let ghost tb = self@;
            match self.insert_change(ch) {
                Ok(()) => {},
                Err(e) => {
                    proof {
                        assert(insert_merge_changes(t4, rev@, name@, mv, gv, cv, (k + 1) as nat) == insert_change_spec(tb, merge_change(rev@, name@, mv, gv, cv[k as int])));
                        lemma_merge_changes_err(t4, rev@, name@, mv, gv, cv, (k + 1) as nat, cv.len());
                    }
                    return Err(BranchError::Store(e));
                },
            }
            k = k + 1;
        }
        self.save_snapshot_at(rev.as_str(), merged, ts);
        Ok(())
    }
}

/// Merge branch `name` into main: a new head revision whose parents are the
/// main head and the branch tip, holding every node that only one side
/// changed. Refused with the ids of nodes both sides changed differently,
/// or of a node the merge would leave under a missing parent.
pub fn merge_branch(store: &mut Store, doc_id: &str, name: &str, reason: Option<String>) -> (r: Result<RevisionId, BranchError>)
    ensures
        match merge_spec(old(store)@, doc_id@, name@, opt_str_view(reason), final(store)@[doc_index(old(store)@, doc_id@)].revisions.last().rev.created_at) {
            Ok((t, rev)) => r matches Ok(x) && x@ == rev && final(store)@ == with_tables(old(store)@, doc_id@, t),
            Err(e) => r matches Err(x) && x@ == e && final(store)@ == old(store)@,
        },
{
    proof {
        reveal_strlit("main");
    }
    if str_eq(name, "main") || crate::text::blank(name) {
        return Err(BranchError::NotFound(owned(name)));
    }
    let ghost s0 = store@;
    let t = match store.tables(doc_id) {
        Some(t) => t,
        None => {
            return Err(BranchError::NotFound(owned("main")));
        },
    };
    let main_rev = match t.head_revision() {
        Some(h) => {
            if t.get_branch(h.as_str()).is_some() {
                return Err(BranchError::NotOnMain);
            }
            h
        },
        None => {
            return Err(BranchError::NotFound(owned("main")));
        },
    };
    let source = match t.branch_tip(name) {
        Some(x) => x,
        None => {
            return Err(BranchError::NotFound(owned(name)));
        },
    };
    let anc = t.ancestors(main_rev.as_str());
    let base = match find_base(t, &anc, source.as_str()) {
        Some(b) => b,
        None => {
            return Err(BranchError::NoCommonAncestor(owned(name)));
        },
    };
    let base_nodes = match t.load_snapshot(base.as_str()) {
        Some(v) => v,
        None => {
            return Err(BranchError::MissingSnapshot(base));
        },
    };
    let main_nodes = match t.load_snapshot(main_rev.as_str()) {
        Some(v) => v,
        None => {
            return Err(BranchError::MissingSnapshot(main_rev));
        },
    };
    let source_nodes = match t.load_snapshot(source.as_str()) {
        Some(v) => v,
        None => {
            return Err(BranchError::MissingSnapshot(source));
        },
    };
    let tw = three_way(&base_nodes, &main_nodes, &source_nodes);
    if tw.conflicts.len() > 0 {
        return Err(BranchError::Conflicts(tw.conflicts));
    }
    if let Some(id) = find_stranded(&tw.merged) {
        let mut ids: Vec<String> = Vec::new();
        ids.push(id);
        assert(strs_view(ids@) =~= seq![ids@[0]@]);
        return Err(BranchError::Conflicts(ids));
    }
    let seq = t.max_revision_seq();
    let rev = RevisionId::from_sequence(seq);
    let mut op_text = owned("OP-MERGE-");
    op_text.append(decimal_string(seq).as_str());
    let op_id = OpId::from_string(op_text);
    let msg = match reason {
        Some(r) => r,
        None => {
            let mut m = owned("merge ");
            m.append(name);
            m.append(" into main");
            m
        },
    };
    let (i, original) = match store.checkout_tables(doc_id) {
        Some(p) => p,
        None => {
            return Err(BranchError::NotOnMain);
        },
    };
    let mut work = original.clone_tables();
    match work.commit_merge(main_rev.as_str(), source.as_str(), name, msg.as_str(), &main_nodes, &tw.merged, &tw.changed, &rev, &op_id) {
        Ok(()) => {
            store.restore_tables(i, work);
            assert(store@[i as int] == work@);
            Ok(rev)
        },
        Err(e) => {
            store.restore_tables(i, original);
            assert(store@ =~= s0);
            proof {
                let (b, m, sn) = (nodes_view(base_nodes@), nodes_view(main_nodes@), nodes_view(source_nodes@));
                let keys = merge_keys(b, m, sn);
                lemma_merge_commit_err(
                    original@,
                    main_rev@,
                    source@,
                    name@,
                    msg@,
                    m,
                    merged_nodes(keys, b, m, sn),
                    changed_ids(keys, b, m, sn),
                    work@.revisions.last().rev.created_at,
                    store@[i as int].revisions.last().rev.created_at,
                );
            }
            Err(e)
        },
    }
}

/// Insert `x` after every revision not created later (keeps ties in order).
pub open spec fn insert_by_time(s: Seq<RevisionV>, x: RevisionV) -> Seq<RevisionV>
    decreases s.len(),
{
    if s.len() == 0 {
        seq![x]
    } else if text_lt(x.created_at, s[0].created_at) {
        seq![x] + s
    } else {
        seq![s[0]] + insert_by_time(s.drop_first(), x)
    }
}

/// Stable insertion sort by creation time.
pub open spec fn sort_by_time(s: Seq<RevisionV>) -> Seq<RevisionV>
    decreases s.len(),
{
    if s.len() == 0 {
        Seq::empty()
    } else {
        insert_by_time(sort_by_time(s.drop_last()), s.last())
    }
}

pub open spec fn time_point(s: Seq<RevisionV>, x: RevisionV) -> int
    decreases s.len(),
{
    if s.len() == 0 {
        0
    } else if text_lt(x.created_at, s[0].created_at) {
        0
    } else {
        1 + time_point(s.drop_first(), x)
    }
}

pub proof fn lemma_time_point(s: Seq<RevisionV>, x: RevisionV)
    ensures
        0 <= time_point(s, x) <= s.len(),
        insert_by_time(s, x) == s.insert(time_point(s, x), x),
        forall|j: int| 0 <= j < time_point(s, x) ==> !text_lt(x.created_at, #[trigger] s[j].created_at),
        time_point(s, x) < s.len() ==> text_lt(x.created_at, s[time_point(s, x)].created_at),
    decreases s.len(),
{
    if s.len() > 0 && !text_lt(x.created_at, s[0].created_at) {
        lemma_time_point(s.drop_first(), x);
        let p = time_point(s.drop_first(), x);
        assert(seq![s[0]] + s.drop_first().insert(p, x) =~= s.insert(p + 1, x));
        assert forall|j: int| 1 <= j < p + 1 implies !text_lt(x.created_at, #[trigger] s[j].created_at) by {
            assert(s[j] == s.drop_first()[j - 1]);
        }
    } else if s.len() > 0 {
        assert(seq![x] + s =~= s.insert(0, x));
    } else {
        assert(seq![x] =~= s.insert(0, x));
    }
}

pub open spec fn revs_view(v: Seq<Revision>) -> Seq<RevisionV> {
    v.map_values(|r: Revision| r@)
}

/// The revisions of `t` ordered by creation time (stable).
pub open spec fn revisions_by_time(t: DocTablesV) -> Seq<RevisionV> {
    sort_by_time(t.revisions.map_values(|r: RevisionRowV| r.rev))
}

/// Keep the revisions on branch `name` (`main`: unlabelled).
pub open spec fn on_branch_rev(r: RevisionV, name: Seq<char>) -> bool {
    if name == "main"@ { r.branch is None } else { r.branch == Some(name) }
}

impl DocTables {
    /// Every revision, oldest first (ties in stored order).
    pub fn list_revisions(&self) -> (r: Vec<Revision>)
        ensures
            revs_view(r@) == revisions_by_time(self@),
    {
        let ghost all = self@.revisions.map_values(|r: RevisionRowV| r.rev);
        let mut out: Vec<Revision> = Vec::new();
        let n = self.revisions.len();
        let mut k: usize = 0;
        while k < n
            invariant
                k <= n,
                n == self@.revisions.len(),
                all == self@.revisions.map_values(|r: RevisionRowV| r.rev),
                revs_view(out@) == sort_by_time(all.take(k as int)),
            decreases n - k,
        {
            let x = self.revisions[k].revision.clone();
            proof {
                assert(self@.revisions[k as int] == self.revisions@[k as int]@);
                assert(all[k as int] == x@);
                assert(all.take(k + 1).drop_last() =~= all.take(k as int));
                lemma_time_point(revs_view(out@), x@);
            }
            let mut p: usize = 0;
            while p < out.len() && !text_less(x.created_at.as_str(), out[p].created_at.as_str())
                invariant
                    p <= out@.len(),
                    forall|j: int| 0 <= j < p ==> !text_lt(x@.created_at, #[trigger] revs_view(out@)[j].created_at),
                    p <= time_point(revs_view(out@), x@),
                    0 <= time_point(revs_view(out@), x@) <= out@.len(),
                    time_point(revs_view(out@), x@) < out@.len() ==> text_lt(x@.created_at, revs_view(out@)[time_point(revs_view(out@), x@)].created_at),
                decreases out@.len() - p,
            {
                assert(revs_view(out@)[p as int] == out@[p as int]@);
                p = p + 1;
            }
            proof {
                if p < out@.len() {
                    assert(revs_view(out@)[p as int] == out@[p as int]@);
                    assert(text_lt(x@.created_at, revs_view(out@)[p as int].created_at));
                }
                assert(p == time_point(revs_view(out@), x@));
            }
            let ghost o0 = out@;
            out.insert(p, x);
            proof {
                assert(revs_view(out@) =~= revs_view(o0).insert(p as int, x@));
            }
            k = k + 1;
        }
        assert(all.take(n as int) =~= all);
        out
    }
}

/// Every revision of `doc_id`, oldest first.
pub fn list_revisions(store: &Store, doc_id: &str) -> (r: Vec<Revision>)
    ensures
        match doc_tables(store@, doc_id@) {
            None => r@.len() == 0,
            Some(t) => revs_view(r@) == revisions_by_time(t),
        },
{
    match store.tables(doc_id) {
        Some(t) => t.list_revisions(),
        None => Vec::new(),
    }
}

/// The revisions of `doc_id` on branch `name`, oldest first.
pub fn list_revisions_by_branch(store: &Store, doc_id: &str, name: &str) -> (r: Vec<Revision>)
    ensures
        match doc_tables(store@, doc_id@) {
            None => r@.len() == 0,
            Some(t) => revs_view(r@) == revisions_by_time(t).filter(|x: RevisionV| on_branch_rev(x, name@)),
        },
{
    let all = list_revisions(store, doc_id);
    let is_main = str_eq(name, "main");
    proof {
        reveal_strlit("main");
    }
    let ghost av = revs_view(all@);
    let mut out: Vec<Revision> = Vec::new();
    let mut i: usize = 0;
    while i < all.len()
        invariant
            i <= all@.len(),
            av == revs_view(all@),
            is_main == (name@ == "main"@),
            revs_view(out@) == av.take(i as int).filter(|x: RevisionV| on_branch_rev(x, name@)),
        decreases all@.len() - i,
    {
        let r = &all[i];
        proof {
            assert(av[i as int] == r@);
            assert(av.take(i + 1).drop_last() =~= av.take(i as int));
            reveal(Seq::filter);
        }
        let keep = if is_main {
            r.branch.is_none()
        } else {
            match &r.branch {
                Some(b) => str_eq(b.as_str(), name),
                None => false,
            }
        };
        if keep {
            let ghost o0 = revs_view(out@);
            out.push(r.clone());
            assert(revs_view(out@) =~= o0.push(r@));
        }
        i = i + 1;
    }
    assert(av.take(av.len() as int) =~= av);
    out
}

} // verus!
