//! Impact analysis: what a change reaches through the graph, and what must
//! be revalidated or replanned because of it.

use crate::ids::{fragment_view, node_id};
use crate::keyed::{Keyed, keyed_map, keyed_sorted, keyed_upsert, views};
use crate::model::{
    EdgeV, Graph, GraphDelta, JsonV, JsonValue, Node, NodeV, attr_set, attr_text, fields_text,
    json_fields_view, json_seq_view, json_view, lemma_fields_push, lemma_json_seq_push, lemma_json_seq_view,
    lemma_node_map_ids, make_node, set_attribute, text_array, texts,
};
use crate::text::{
    append, chars_of, contains_string, eq_str, join_strings, joined, lemma_sorted_list, msg3,
    sorted_insert, sorted_list, sorted_strict, string_chars, string_of, strings_view,
};
use vstd::prelude::*;

verus! {

#[derive(Debug, Clone, PartialEq, Eq)]
pub struct ImpactAnalysis {
    pub roots: Vec<String>,
    pub max_depth: usize,
    pub impacted_nodes: Vec<String>,
    pub traversed_edges: Vec<String>,
}

#[derive(Debug, Clone, Copy, PartialEq, Eq, Structural)]
pub enum ImpactInvalidationReason {
    DirectImpact,
    IndirectImpact,
    PolicyChanged,
    OntologyChanged,
    TraceabilityChanged,
}

#[derive(Debug, Clone, Copy, PartialEq, Eq, Structural)]
pub enum RevalidationTargetKind {
    ValidationRun,
    ValidatorExecution,
    Finding,
    ActionNode,
    CommitPlan,
    TestRun,
}

#[derive(Debug, Clone, PartialEq, Eq)]
pub struct RevalidationQueueEntry {
    pub target_id: String,
    pub target_kind: RevalidationTargetKind,
    pub reason: ImpactInvalidationReason,
    pub impacted_by: Vec<String>,
    pub requires_replan: bool,
}

#[derive(Debug, Clone, PartialEq, Eq)]
pub struct RevalidationQueue {
    pub queue_id: String,
    pub roots: Vec<String>,
    pub entries: Vec<RevalidationQueueEntry>,
    pub invalidated_actions: Vec<String>,
    pub invalidated_validations: Vec<String>,
    pub replan_required: bool,
}

// ------------------------------------------------------------ reach

/// The ids one edge away from `s`, in either direction.
pub open spec fn neighbors(es: Seq<EdgeV>, s: Set<Seq<char>>) -> Set<Seq<char>> {
    Set::new(
        |n: Seq<char>|
            exists|i: int|
                0 <= i < es.len() && ((s.contains((#[trigger] es[i]).from) && es[i].to == n) || (s.contains(
                    es[i].to,
                ) && es[i].from == n)),
    )
}

/// The ids within `k` edges of `start`.
pub open spec fn ball(es: Seq<EdgeV>, start: Set<Seq<char>>, k: nat) -> Set<Seq<char>>
    decreases k,
{
    if k == 0 {
        start
    } else {
        let b = ball(es, start, (k - 1) as nat);
        b.union(neighbors(es, b))
    }
}

/// The roots that are nodes of the graph.
pub open spec fn start_set(roots: Seq<Seq<char>>, nm: Map<Seq<char>, NodeV>) -> Set<Seq<char>> {
    Set::new(|r: Seq<char>| roots.contains(r) && nm.contains_key(r))
}

/// The ids of the edges with an end in `s`.
pub open spec fn touching(es: Seq<EdgeV>, s: Set<Seq<char>>) -> Set<Seq<char>> {
    Set::new(
        |id: Seq<char>|
            exists|i: int|
                0 <= i < es.len() && (#[trigger] es[i]).id == id && (s.contains(es[i].from) || s.contains(
                    es[i].to,
                )),
    )
}

/// Once a step adds nothing, no later step does.
pub proof fn lemma_ball_fixpoint(es: Seq<EdgeV>, start: Set<Seq<char>>, k: nat, j: nat)
    requires
        ball(es, start, k + 1) == ball(es, start, k),
        k <= j,
    ensures
        ball(es, start, j) == ball(es, start, k),
    decreases j - k,
{
    if j > k {
        lemma_ball_fixpoint(es, start, k, (j - 1) as nat);
        assert(ball(es, start, j) == ball(es, start, (j - 1) as nat).union(
            neighbors(es, ball(es, start, (j - 1) as nat)),
        ));
    }
}

fn start_nodes(graph: &Graph, roots: &Vec<String>) -> (r: Vec<String>)
    ensures
        sorted_strict(strings_view(r@)),
        strings_view(r@).to_set() == start_set(strings_view(roots@), graph.node_map()),
{
    let ghost rs = strings_view(roots@);
    let mut out: Vec<String> = Vec::new();
    assert(strings_view(out@).to_set() =~= Set::empty());
    let mut i: usize = 0;
    while i < roots.len()
        invariant
            i <= rs.len(),
            rs == strings_view(roots@),
            sorted_strict(strings_view(out@)),
            strings_view(out@).to_set() == start_set(rs.take(i as int), graph.node_map()),
        decreases rs.len() - i,
    {
        let ghost before = strings_view(out@).to_set();
        if graph.node(roots[i].as_str()).is_some() {
            sorted_insert(&mut out, roots[i].clone());
        }
        assert(rs[i as int] == roots@[i as int]@);
        assert forall|x: Seq<char>| #[trigger] start_set(rs.take(i + 1), graph.node_map()).contains(x)
            == strings_view(out@).to_set().contains(x) by {
            let t1 = rs.take(i + 1);
            let t0 = rs.take(i as int);
            if t1.contains(x) {
                let k = choose|k: int| 0 <= k < t1.len() && #[trigger] t1[k] == x;
                if k < i {
                    assert(t0[k] == x);
                }
            }
            if t0.contains(x) {
                let k = choose|k: int| 0 <= k < t0.len() && #[trigger] t0[k] == x;
                assert(t1[k] == x);
            }
            if x == rs[i as int] {
                assert(rs.take(i + 1)[i as int] == x);
            }
        }
        assert(start_set(rs.take(i + 1), graph.node_map()) =~= strings_view(out@).to_set());
        i = i + 1;
    }
    assert(rs.take(rs.len() as int) =~= rs);
    out
}

/// `visited` and its neighbours; and whether that adds anything.
fn expand(graph: &Graph, visited: &Vec<String>) -> (r: (Vec<String>, bool))
    requires
        sorted_strict(strings_view(visited@)),
    ensures
        sorted_strict(strings_view(r.0@)),
        strings_view(r.0@).to_set() == strings_view(visited@).to_set().union(
            neighbors(graph.edge_seq(), strings_view(visited@).to_set()),
        ),
        r.1 == (strings_view(r.0@).to_set() != strings_view(visited@).to_set()),
{
    let edges = graph.edges();
    let ghost es = views(edges@);
    let ghost v = strings_view(visited@).to_set();
    let mut out = visited.clone();
    assert(strings_view(out@) =~= strings_view(visited@)) by {
        assert forall|k: int| 0 <= k < out@.len() implies strings_view(out@)[k] == strings_view(visited@)[k] by {
            assert(cloned::<String>(visited@[k], out@[k]));
        }
    }
    let mut grew = false;
    let mut i: usize = 0;
    while i < edges.len()
        invariant
            i <= edges@.len(),
            es == views(edges@),
            es == graph.edge_seq(),
            v == strings_view(visited@).to_set(),
            sorted_strict(strings_view(out@)),
            strings_view(out@).to_set() == v.union(neighbors(es.take(i as int), v)),
            grew == (exists|y: Seq<char>| strings_view(out@).to_set().contains(y) && !v.contains(y)),
        decreases edges@.len() - i,
    {
        let e = &edges[i];
        assert(es[i as int] == e@);
        let ghost before = strings_view(out@).to_set();
        if contains_string(visited, e.from.as_str()) {
            let x = e.to.clone();
            assert(x@ == e@.to);
            let ghost old_seq = strings_view(out@);
            let added = sorted_insert(&mut out, x);
            if added {
                grew = true;
                assert(!old_seq.contains(e@.to));
                assert(!before.contains(e@.to));
                assert(v.subset_of(before));
                assert(strings_view(out@).to_set().contains(e@.to) && !v.contains(e@.to));
            } else {
                assert(strings_view(out@).to_set() =~= before);
            }
        }
        let ghost mid = strings_view(out@).to_set();
        if contains_string(visited, e.to.as_str()) {
            let x = e.from.clone();
            assert(x@ == e@.from);
            let ghost old_seq = strings_view(out@);
            let added = sorted_insert(&mut out, x);
            if added {
                grew = true;
                assert(!old_seq.contains(e@.from));
                assert(!mid.contains(e@.from));
                assert(v.subset_of(before));
                assert(before.subset_of(mid));
                assert(strings_view(out@).to_set().contains(e@.from) && !v.contains(e@.from));
            } else {
                assert(strings_view(out@).to_set() =~= mid);
            }
        }
        proof {
            if exists|y: Seq<char>| before.contains(y) && !v.contains(y) {
                let y = choose|y: Seq<char>| before.contains(y) && !v.contains(y);
                assert(strings_view(out@).to_set().contains(y));
            }
        }
        assert forall|x: Seq<char>| #[trigger] strings_view(out@).to_set().contains(x) == v.union(
            neighbors(es.take(i + 1), v),
        ).contains(x) by {
            let t = es.take(i + 1);
            if neighbors(es.take(i as int), v).contains(x) {
                let k = choose|k: int|
                    0 <= k < es.take(i as int).len() && ((v.contains((#[trigger] es.take(i as int)[k]).from)
                        && es.take(i as int)[k].to == x) || (v.contains(es.take(i as int)[k].to)
                        && es.take(i as int)[k].from == x));
                assert(t[k] == es.take(i as int)[k]);
            }
            if neighbors(t, v).contains(x) {
                let k = choose|k: int|
                    0 <= k < t.len() && ((v.contains((#[trigger] t[k]).from) && t[k].to == x) || (v.contains(
                        t[k].to,
                    ) && t[k].from == x));
                if k < i {
                    assert(es.take(i as int)[k] == t[k]);
                } else {
                    assert(t[k] == es[i as int]);
                }
            }
            if v.contains(e@.from) && x == e@.to {
                assert(t[i as int] == es[i as int]);
            }
            if v.contains(e@.to) && x == e@.from {
                assert(t[i as int] == es[i as int]);
            }
        }
        assert(strings_view(out@).to_set() =~= v.union(neighbors(es.take(i + 1), v)));
        i = i + 1;
    }
    assert(es.take(es.len() as int) =~= es);
    proof {
        if grew {
            let y = choose|y: Seq<char>| strings_view(out@).to_set().contains(y) && !v.contains(y);
        } else {
            assert(strings_view(out@).to_set() =~= v);
        }
    }
    (out, grew)
}

/// The ids within `k` edges of the roots that are nodes, in id order.
pub(crate) fn ball_exec(graph: &Graph, roots: &Vec<String>, k: usize) -> (r: Vec<String>)
    ensures
        sorted_strict(strings_view(r@)),
        strings_view(r@).to_set() == ball(
            graph.edge_seq(),
            start_set(strings_view(roots@), graph.node_map()),
            k as nat,
        ),
{
    let ghost es = graph.edge_seq();
    let ghost st = start_set(strings_view(roots@), graph.node_map());
    let mut visited = start_nodes(graph, roots);
    let mut d: usize = 0;
    while d < k
        invariant
            d <= k,
            sorted_strict(strings_view(visited@)),
            es == graph.edge_seq(),
            st == start_set(strings_view(roots@), graph.node_map()),
            strings_view(visited@).to_set() == ball(es, st, d as nat),
        decreases k - d,
    {
        let (next, grew) = expand(graph, &visited);
        assert(ball(es, st, (d + 1) as nat) == ball(es, st, d as nat).union(neighbors(es, ball(es, st, d as nat))));
        if !grew {
            proof {
                lemma_ball_fixpoint(es, st, d as nat, k as nat);
            }
            return visited;
        }
        visited = next;
        d = d + 1;
    }
    visited
}

/// The edges with an end in the sorted id list `inner`, in id order.
pub(crate) fn touching_exec(graph: &Graph, inner: &Vec<String>) -> (r: Vec<String>)
    ensures
        sorted_strict(strings_view(r@)),
        strings_view(r@).to_set() == touching(graph.edge_seq(), strings_view(inner@).to_set()),
{
    let edges = graph.edges();
    let ghost es = views(edges@);
    let ghost s = strings_view(inner@).to_set();
    let mut out: Vec<String> = Vec::new();
    assert(strings_view(out@).to_set() =~= Set::empty());
    let mut i: usize = 0;
    while i < edges.len()
        invariant
            i <= edges@.len(),
            es == views(edges@),
            es == graph.edge_seq(),
            s == strings_view(inner@).to_set(),
            sorted_strict(strings_view(out@)),
            strings_view(out@).to_set() == touching(es.take(i as int), s),
        decreases edges@.len() - i,
    {
        let e = &edges[i];
        assert(es[i as int] == e@);
        if contains_string(inner, e.from.as_str()) || contains_string(inner, e.to.as_str()) {
            sorted_insert(&mut out, e.id.clone());
        }
        assert forall|x: Seq<char>| #[trigger] strings_view(out@).to_set().contains(x) == touching(
            es.take(i + 1),
            s,
        ).contains(x) by {
            let t = es.take(i + 1);
            if touching(es.take(i as int), s).contains(x) {
                let k = choose|k: int|
                    0 <= k < es.take(i as int).len() && (#[trigger] es.take(i as int)[k]).id == x && (s.contains(
                        es.take(i as int)[k].from,
                    ) || s.contains(es.take(i as int)[k].to));
                assert(t[k] == es.take(i as int)[k]);
            }
            if touching(t, s).contains(x) {
                let k = choose|k: int|
                    0 <= k < t.len() && (#[trigger] t[k]).id == x && (s.contains(t[k].from) || s.contains(
                        t[k].to,
                    ));
                if k < i {
                    assert(es.take(i as int)[k] == t[k]);
                } else {
                    assert(t[k] == es[i as int]);
                }
            }
            if x == e@.id && (s.contains(e@.from) || s.contains(e@.to)) {
                assert(t[i as int] == es[i as int]);
            }
        }
        assert(strings_view(out@).to_set() =~= touching(es.take(i + 1), s));
        i = i + 1;
    }
    assert(es.take(es.len() as int) =~= es);
    out
}

/// The ids an analysis impacts: those within `max_depth` edges of the
/// roots that are nodes, in id order.
pub open spec fn impacted(g: Graph, roots: Seq<Seq<char>>, max_depth: nat) -> Seq<Seq<char>> {
    sorted_list(ball(g.edge_seq(), start_set(roots, g.node_map()), max_depth))
}

/// The edges an analysis traverses: those with an end fewer than
/// `max_depth` edges from the roots, in id order.
pub open spec fn traversed(g: Graph, roots: Seq<Seq<char>>, max_depth: nat) -> Seq<Seq<char>> {
    if max_depth == 0 {
        Seq::empty()
    } else {
        sorted_list(
            touching(g.edge_seq(), ball(g.edge_seq(), start_set(roots, g.node_map()), (max_depth - 1) as nat)),
        )
    }
}

/// Breadth-first impact of the roots, along edges in either direction, up
/// to `max_depth` steps.
pub fn analyze_impact(graph: &Graph, roots: Vec<String>, max_depth: usize) -> (a: ImpactAnalysis)
    ensures
        strings_view(a.roots@) == strings_view(roots@),
        a.max_depth == max_depth,
        strings_view(a.impacted_nodes@) == impacted(*graph, strings_view(roots@), max_depth as nat),
        strings_view(a.traversed_edges@) == traversed(*graph, strings_view(roots@), max_depth as nat),
        sorted_strict(strings_view(a.impacted_nodes@)),
        sorted_strict(strings_view(a.traversed_edges@)),
        strings_view(a.impacted_nodes@).to_set() == ball(
            graph.edge_seq(),
            start_set(strings_view(roots@), graph.node_map()),
            max_depth as nat,
        ),
        max_depth == 0 ==> strings_view(a.impacted_nodes@).to_set() == start_set(
            strings_view(roots@),
            graph.node_map(),
        ) && a.traversed_edges@.len() == 0,
        max_depth > 0 ==> strings_view(a.traversed_edges@).to_set() == touching(
            graph.edge_seq(),
            ball(graph.edge_seq(), start_set(strings_view(roots@), graph.node_map()), (max_depth - 1) as nat),
        ),
{
    let impacted_nodes = ball_exec(graph, &roots, max_depth);
    proof {
        lemma_sorted_list(strings_view(impacted_nodes@));
    }
    let traversed_edges = if max_depth == 0 {
        let none: Vec<String> = Vec::new();
        assert(strings_view(none@) =~= Seq::<Seq<char>>::empty());
        none
    } else {
        let inner = ball_exec(graph, &roots, max_depth - 1);
        let t = touching_exec(graph, &inner);
        proof {
            lemma_sorted_list(strings_view(t@));
        }
        t
    };
    ImpactAnalysis { roots, max_depth, impacted_nodes, traversed_edges }
}

/// Every root that is a node is impacted, and what a shallower analysis
/// impacts a deeper one impacts too.
pub proof fn impact_grows_with_depth(es: Seq<EdgeV>, start: Set<Seq<char>>, k: nat, j: nat)
    requires
        k <= j,
    ensures
        start.subset_of(ball(es, start, k)),
        ball(es, start, k).subset_of(ball(es, start, j)),
    decreases j,
{
    if j > k {
        impact_grows_with_depth(es, start, k, (j - 1) as nat);
    } else if k > 0 {
        impact_grows_with_depth(es, start, (k - 1) as nat, (k - 1) as nat);
    }
}

// ------------------------------------------------------------ revalidation

pub open spec fn target_kind(node_type: Seq<char>) -> Option<RevalidationTargetKind> {
    if node_type == "ValidationRun"@ {
        Some(RevalidationTargetKind::ValidationRun)
    } else if node_type == "ValidatorExecution"@ {
        Some(RevalidationTargetKind::ValidatorExecution)
    } else if node_type == "Finding"@ {
        Some(RevalidationTargetKind::Finding)
    } else if node_type == "ActionNode"@ {
        Some(RevalidationTargetKind::ActionNode)
    } else if node_type == "CommitPlan"@ {
        Some(RevalidationTargetKind::CommitPlan)
    } else if node_type == "TestRun"@ {
        Some(RevalidationTargetKind::TestRun)
    } else {
        None
    }
}

pub fn target_kind_for_node_type(node_type: &str) -> (r: Option<RevalidationTargetKind>)
    ensures
        r == target_kind(node_type@),
{
    let t = chars_of(node_type);
    if eq_str(&t, "ValidationRun") {
        Some(RevalidationTargetKind::ValidationRun)
    } else if eq_str(&t, "ValidatorExecution") {
        Some(RevalidationTargetKind::ValidatorExecution)
    } else if eq_str(&t, "Finding") {
        Some(RevalidationTargetKind::Finding)
    } else if eq_str(&t, "ActionNode") {
        Some(RevalidationTargetKind::ActionNode)
    } else if eq_str(&t, "CommitPlan") {
        Some(RevalidationTargetKind::CommitPlan)
    } else if eq_str(&t, "TestRun") {
        Some(RevalidationTargetKind::TestRun)
    } else {
        None
    }
}

/// Why a node must be revalidated: it is a root, or what kind of fact
/// changed, or else the default.
pub open spec fn invalidation_reason(
    n: NodeV,
    roots: Seq<Seq<char>>,
    default_reason: ImpactInvalidationReason,
) -> ImpactInvalidationReason {
    if roots.contains(n.id) {
        ImpactInvalidationReason::DirectImpact
    } else if n.node_type == "PolicyDecision"@ || n.node_type == "PolicyRequirement"@ {
        ImpactInvalidationReason::PolicyChanged
    } else if n.node_type == "OntologyPack"@ || n.node_type == "OntologyVersion"@ || n.node_type
        == "OntologyMigration"@ {
        ImpactInvalidationReason::OntologyChanged
    } else if n.node_type == "TestCase"@ || n.node_type == "Regression"@ {
        ImpactInvalidationReason::TraceabilityChanged
    } else {
        default_reason
    }
}

fn invalidation_reason_for_node(
    n: &Node,
    roots: &Vec<String>,
    default_reason: ImpactInvalidationReason,
) -> (r: ImpactInvalidationReason)
    ensures
        r == invalidation_reason(n@, strings_view(roots@), default_reason),
{
    if contains_string(roots, n.id.as_str()) {
        return ImpactInvalidationReason::DirectImpact;
    }
    let t = string_chars(&n.node_type);
    if eq_str(&t, "PolicyDecision") || eq_str(&t, "PolicyRequirement") {
        ImpactInvalidationReason::PolicyChanged
    } else if eq_str(&t, "OntologyPack") || eq_str(&t, "OntologyVersion") || eq_str(&t, "OntologyMigration") {
        ImpactInvalidationReason::OntologyChanged
    } else if eq_str(&t, "TestCase") || eq_str(&t, "Regression") {
        ImpactInvalidationReason::TraceabilityChanged
    } else {
        default_reason
    }
}

pub struct EntryV {
    pub target_id: Seq<char>,
    pub target_kind: RevalidationTargetKind,
    pub reason: ImpactInvalidationReason,
    pub impacted_by: Seq<Seq<char>>,
    pub requires_replan: bool,
}

impl View for RevalidationQueueEntry {
    type V = EntryV;

    open spec fn view(&self) -> EntryV {
        EntryV {
            target_id: self.target_id@,
            target_kind: self.target_kind,
            reason: self.reason,
            impacted_by: strings_view(self.impacted_by@),
            requires_replan: self.requires_replan,
        }
    }
}

impl Keyed for RevalidationQueueEntry {
    open spec fn view_key(v: EntryV) -> Seq<char> {
        v.target_id
    }

    fn key(&self) -> (r: &String) {
        &self.target_id
    }
}

pub open spec fn is_action_kind(k: RevalidationTargetKind) -> bool {
    k == RevalidationTargetKind::ActionNode || k == RevalidationTargetKind::CommitPlan
}

/// A node that the queue holds: impacted, present, of a revalidated type.
pub open spec fn queued(nm: Map<Seq<char>, NodeV>, impacted: Seq<Seq<char>>, id: Seq<char>) -> bool {
    impacted.contains(id) && nm.contains_key(id) && target_kind(nm[id].node_type) is Some
}

/// The queue entry for a queued node.
pub open spec fn queue_entry(
    n: NodeV,
    roots: Seq<Seq<char>>,
    default_reason: ImpactInvalidationReason,
) -> EntryV {
    let kind = target_kind(n.node_type)->Some_0;
    EntryV {
        target_id: n.id,
        target_kind: kind,
        reason: invalidation_reason(n, roots, default_reason),
        impacted_by: roots,
        requires_replan: is_action_kind(kind),
    }
}

pub open spec fn entry_ids(es: Seq<EntryV>, actions: bool) -> Seq<Seq<char>>
    decreases es.len(),
{
    if es.len() == 0 {
        Seq::empty()
    } else if is_action_kind(es.last().target_kind) == actions {
        entry_ids(es.drop_last(), actions).push(es.last().target_id)
    } else {
        entry_ids(es.drop_last(), actions)
    }
}

fn ids_of_kind(entries: &Vec<RevalidationQueueEntry>, actions: bool) -> (r: Vec<String>)
    ensures
        strings_view(r@) == entry_ids(views(entries@), actions),
{
    let ghost es = views(entries@);
    let mut out: Vec<String> = Vec::new();
    let mut i: usize = 0;
    while i < entries.len()
        invariant
            i <= entries@.len(),
            es == views(entries@),
            strings_view(out@) == entry_ids(es.take(i as int), actions),
        decreases entries@.len() - i,
    {
        assert(es.take(i + 1).drop_last() =~= es.take(i as int));
        assert(es.take(i + 1).last() == entries@[i as int]@);
        let k = entries[i].target_kind;
        let is_action = k == RevalidationTargetKind::ActionNode || k == RevalidationTargetKind::CommitPlan;
        if is_action == actions {
            let ghost before = strings_view(out@);
            out.push(entries[i].target_id.clone());
            assert(strings_view(out@) =~= before.push(entries@[i as int].target_id@));
        }
        i = i + 1;
    }
    assert(es.take(es.len() as int) =~= es);
    out
}

/// One entry per queued node, in id order; the action and commit-plan ids
/// among them; the validation ids among them; and whether anything must be
/// replanned.
pub fn build_revalidation_queue_with_reason(
    graph: &Graph,
    impact: &ImpactAnalysis,
    default_reason: ImpactInvalidationReason,
) -> (q: RevalidationQueue)
    ensures
        q.queue_id@ == "revalidation-queue:"@ + joined(strings_view(impact.roots@), "+"@),
        strings_view(q.roots@) == strings_view(impact.roots@),
        keyed_sorted::<RevalidationQueueEntry>(views(q.entries@)),
        keyed_map::<RevalidationQueueEntry>(views(q.entries@)) == Map::new(
            |id: Seq<char>| queued(graph.node_map(), strings_view(impact.impacted_nodes@), id),
            |id: Seq<char>| queue_entry(graph.node_map()[id], strings_view(impact.roots@), default_reason),
        ),
        strings_view(q.invalidated_actions@) == entry_ids(views(q.entries@), true),
        strings_view(q.invalidated_validations@) == entry_ids(views(q.entries@), false),
        q.replan_required == (q.invalidated_actions@.len() > 0),
{
    let ghost nm = graph.node_map();
    let ghost imp = strings_view(impact.impacted_nodes@);
    let ghost roots = strings_view(impact.roots@);
    let mut entries: Vec<RevalidationQueueEntry> = Vec::new();
    assert(keyed_map::<RevalidationQueueEntry>(views(entries@)) =~= Map::new(
        |id: Seq<char>| queued(nm, imp.take(0), id),
        |id: Seq<char>| queue_entry(nm[id], roots, default_reason),
    ));
    let mut i: usize = 0;
    while i < impact.impacted_nodes.len()
        invariant
            i <= imp.len(),
            imp == strings_view(impact.impacted_nodes@),
            roots == strings_view(impact.roots@),
            nm == graph.node_map(),
            keyed_sorted::<RevalidationQueueEntry>(views(entries@)),
            keyed_map::<RevalidationQueueEntry>(views(entries@)) == Map::new(
                |id: Seq<char>| queued(nm, imp.take(i as int), id),
                |id: Seq<char>| queue_entry(nm[id], roots, default_reason),
            ),
        decreases imp.len() - i,
    {
        let ghost m0 = keyed_map::<RevalidationQueueEntry>(views(entries@));
        let ghost id = imp[i as int];
        let ghost qd = nm.contains_key(id) && target_kind(nm[id].node_type) is Some;
        assert(imp[i as int] == impact.impacted_nodes@[i as int]@);
        match graph.node(impact.impacted_nodes[i].as_str()) {
            Some(n) => {
                match target_kind_for_node_type(n.node_type.as_str()) {
                    Some(kind) => {
                        let reason = invalidation_reason_for_node(n, &impact.roots, default_reason);
                        let by = impact.roots.clone();
                        assert(strings_view(by@) =~= roots) by {
                            assert forall|k: int| 0 <= k < by@.len() implies strings_view(by@)[k] == roots[k] by {
                                assert(cloned::<String>(impact.roots@[k], by@[k]));
                            }
                        }
                        let entry = RevalidationQueueEntry {
                            target_id: n.id.clone(),
                            target_kind: kind,
                            reason,
                            impacted_by: by,
                            requires_replan: kind == RevalidationTargetKind::ActionNode || kind
                                == RevalidationTargetKind::CommitPlan,
                        };
                        assert(entry@ == queue_entry(nm[id], roots, default_reason));
                        keyed_upsert(&mut entries, entry);
                        assert(qd);
                        assert(keyed_map::<RevalidationQueueEntry>(views(entries@)) == m0.insert(
                            id,
                            queue_entry(nm[id], roots, default_reason),
                        ));
                    },
                    None => {
                        assert(!qd);
                    },
                }
            },
            None => {
                assert(!qd);
            },
        }
        let ghost newm = keyed_map::<RevalidationQueueEntry>(views(entries@));
        assert(qd ==> newm == m0.insert(id, queue_entry(nm[id], roots, default_reason)));
        assert(!qd ==> newm == m0);
        let ghost target = Map::new(
            |x: Seq<char>| queued(nm, imp.take(i + 1), x),
            |x: Seq<char>| queue_entry(nm[x], roots, default_reason),
        );
        proof {
            let t1 = imp.take(i + 1);
            let t0 = imp.take(i as int);
            assert forall|x: Seq<char>| #[trigger] t1.contains(x) == (t0.contains(x) || x == id) by {
                if t1.contains(x) {
                    let k = choose|k: int| 0 <= k < t1.len() && #[trigger] t1[k] == x;
                    if k < i {
                        assert(t0[k] == x);
                    }
                }
                if t0.contains(x) {
                    let k = choose|k: int| 0 <= k < t0.len() && #[trigger] t0[k] == x;
                    assert(t1[k] == x);
                }
                if x == id {
                    assert(t1[i as int] == x);
                }
            }
            assert forall|x: Seq<char>| #[trigger] newm.contains_key(x) == target.contains_key(x) by {
            }
            assert forall|x: Seq<char>| #[trigger] newm.contains_key(x) implies newm[x] == target[x] by {
            }
            assert(newm =~= target);
        }
        i = i + 1;
    }
    assert(imp.take(imp.len() as int) =~= imp);
    let invalidated_actions = ids_of_kind(&entries, true);
    let invalidated_validations = ids_of_kind(&entries, false);
    let mut qid = chars_of("revalidation-queue:");
    append(&mut qid, &join_strings(&impact.roots, "+"));
    let roots_copy = impact.roots.clone();
    assert(strings_view(roots_copy@) =~= roots) by {
        assert forall|k: int| 0 <= k < roots_copy@.len() implies strings_view(roots_copy@)[k] == roots[k] by {
            assert(cloned::<String>(impact.roots@[k], roots_copy@[k]));
        }
    }
    let replan_required = invalidated_actions.len() > 0;
    RevalidationQueue {
        queue_id: string_of(&qid),
        roots: roots_copy,
        entries,
        invalidated_actions,
        invalidated_validations,
        replan_required,
    }
}

/// The queue with direct impact as the default reason.
pub fn build_revalidation_queue(graph: &Graph, impact: &ImpactAnalysis) -> (q: RevalidationQueue)
    ensures
        q.queue_id@ == "revalidation-queue:"@ + joined(strings_view(impact.roots@), "+"@),
        strings_view(q.roots@) == strings_view(impact.roots@),
        keyed_sorted::<RevalidationQueueEntry>(views(q.entries@)),
        keyed_map::<RevalidationQueueEntry>(views(q.entries@)) == Map::new(
            |id: Seq<char>| queued(graph.node_map(), strings_view(impact.impacted_nodes@), id),
            |id: Seq<char>| queue_entry(
                graph.node_map()[id],
                strings_view(impact.roots@),
                ImpactInvalidationReason::DirectImpact,
            ),
        ),
        strings_view(q.invalidated_actions@) == entry_ids(views(q.entries@), true),
        strings_view(q.invalidated_validations@) == entry_ids(views(q.entries@), false),
        q.replan_required == (q.invalidated_actions@.len() > 0),
{
    build_revalidation_queue_with_reason(graph, impact, ImpactInvalidationReason::DirectImpact)
}

pub open spec fn reason_name(r: ImpactInvalidationReason) -> Seq<char> {
    match r {
        ImpactInvalidationReason::DirectImpact => "direct-impact"@,
        ImpactInvalidationReason::IndirectImpact => "indirect-impact"@,
        ImpactInvalidationReason::PolicyChanged => "policy-changed"@,
        ImpactInvalidationReason::OntologyChanged => "ontology-changed"@,
        ImpactInvalidationReason::TraceabilityChanged => "traceability-changed"@,
    }
}

pub open spec fn kind_name(k: RevalidationTargetKind) -> Seq<char> {
    match k {
        RevalidationTargetKind::ValidationRun => "validation-run"@,
        RevalidationTargetKind::ValidatorExecution => "validator-execution"@,
        RevalidationTargetKind::Finding => "finding"@,
        RevalidationTargetKind::ActionNode => "action-node"@,
        RevalidationTargetKind::CommitPlan => "commit-plan"@,
        RevalidationTargetKind::TestRun => "test-run"@,
    }
}

impl ImpactInvalidationReason {
    pub fn as_str(self) -> (r: &'static str)
        ensures
            r@ == reason_name(self),
    {
        match self {
            ImpactInvalidationReason::DirectImpact => "direct-impact",
            ImpactInvalidationReason::IndirectImpact => "indirect-impact",
            ImpactInvalidationReason::PolicyChanged => "policy-changed",
            ImpactInvalidationReason::OntologyChanged => "ontology-changed",
            ImpactInvalidationReason::TraceabilityChanged => "traceability-changed",
        }
    }
}

impl RevalidationTargetKind {
    pub fn as_str(self) -> (r: &'static str)
        ensures
            r@ == kind_name(self),
    {
        match self {
            RevalidationTargetKind::ValidationRun => "validation-run",
            RevalidationTargetKind::ValidatorExecution => "validator-execution",
            RevalidationTargetKind::Finding => "finding",
            RevalidationTargetKind::ActionNode => "action-node",
            RevalidationTargetKind::CommitPlan => "commit-plan",
            RevalidationTargetKind::TestRun => "test-run",
        }
    }
}

/// An entry as a JSON object, keys in order.
pub open spec fn entry_json(e: EntryV) -> JsonV {
    JsonV::Object(
        seq![
            ("impactedBy"@, JsonV::Array(texts(e.impacted_by))),
            ("reason"@, JsonV::Text(reason_name(e.reason))),
            ("requiresReplan"@, JsonV::Bool(e.requires_replan)),
            ("targetId"@, JsonV::Text(e.target_id)),
            ("targetKind"@, JsonV::Text(kind_name(e.target_kind))),
        ],
    )
}

fn entry_to_json(e: &RevalidationQueueEntry) -> (r: JsonValue)
    ensures
        json_view(r) == entry_json(e@),
{
    let mut fields: Vec<(String, JsonValue)> = Vec::new();
    let f0 = (String::from_str("impactedBy"), text_array(&e.impacted_by));
    let f1 = (String::from_str("reason"), JsonValue::Text(String::from_str(e.reason.as_str())));
    let f2 = (String::from_str("requiresReplan"), JsonValue::Bool(e.requires_replan));
    let f3 = (String::from_str("targetId"), JsonValue::Text(e.target_id.clone()));
    let f4 = (String::from_str("targetKind"), JsonValue::Text(String::from_str(e.target_kind.as_str())));
    proof { lemma_fields_push(fields@, f0); }
    fields.push(f0);
    proof { lemma_fields_push(fields@, f1); }
    fields.push(f1);
    proof { lemma_fields_push(fields@, f2); }
    fields.push(f2);
    proof { lemma_fields_push(fields@, f3); }
    fields.push(f3);
    proof { lemma_fields_push(fields@, f4); }
    fields.push(f4);
    assert(json_fields_view(Seq::<(String, JsonValue)>::empty()) =~= Seq::empty());
    let r = JsonValue::Object(fields);
    assert(json_view(r) == entry_json(e@)) by {
        assert(json_fields_view(fields@) =~= seq![
            ("impactedBy"@, JsonV::Array(texts(e@.impacted_by))),
            ("reason"@, JsonV::Text(reason_name(e@.reason))),
            ("requiresReplan"@, JsonV::Bool(e@.requires_replan)),
            ("targetId"@, JsonV::Text(e@.target_id)),
            ("targetKind"@, JsonV::Text(kind_name(e@.target_kind))),
        ]);
    }
    r
}

/// The node that records a revalidation queue.
pub open spec fn queue_node(
    queue_id: Seq<char>,
    entries: Seq<EntryV>,
    actions: Seq<Seq<char>>,
    validations: Seq<Seq<char>>,
    replan: bool,
    roots: Seq<Seq<char>>,
) -> NodeV {
    NodeV {
        id: "node"@ + "_"@ + fragment_view("revalidation_queue"@) + "_"@ + fragment_view(queue_id),
        stable_key: queue_id,
        node_type: "RevalidationQueue"@,
        attributes: seq![
            ("entries"@, JsonV::Array(entries.map_values(|e: EntryV| entry_json(e)))),
            ("invalidatedActions"@, JsonV::Array(texts(actions))),
            ("invalidatedValidations"@, JsonV::Array(texts(validations))),
            ("replanRequired"@, JsonV::Bool(replan)),
            ("roots"@, JsonV::Array(texts(roots))),
        ],
    }
}

/// A delta that creates the queue's node and nothing else.
pub fn revalidation_queue_delta(queue: &RevalidationQueue) -> (d: GraphDelta)
    ensures
        views(d.create_nodes@) == seq![
            queue_node(
                queue.queue_id@,
                views(queue.entries@),
                strings_view(queue.invalidated_actions@),
                strings_view(queue.invalidated_validations@),
                queue.replan_required,
                strings_view(queue.roots@),
            ),
        ],
        d.update_nodes@.len() == 0,
        d.delete_nodes@.len() == 0,
        d.create_edges@.len() == 0,
        d.update_edges@.len() == 0,
        d.delete_edges@.len() == 0,
{
    let ghost ev = views(queue.entries@);
    let mut items: Vec<JsonValue> = Vec::new();
    let mut i: usize = 0;
    while i < queue.entries.len()
        invariant
            i <= queue.entries@.len(),
            ev == views(queue.entries@),
            json_seq_view(items@) == ev.take(i as int).map_values(|e: EntryV| entry_json(e)),
        decreases queue.entries@.len() - i,
    {
        let x = entry_to_json(&queue.entries[i]);
        proof {
            lemma_json_seq_push(items@, x);
        }
        items.push(x);
        assert(ev.take(i + 1).map_values(|e: EntryV| entry_json(e)) =~= ev.take(i as int).map_values(
            |e: EntryV| entry_json(e),
        ).push(entry_json(ev[i as int])));
        i = i + 1;
    }
    assert(ev.take(ev.len() as int) =~= ev);
    let mut attrs: Vec<(String, JsonValue)> = Vec::new();
    let a0 = (String::from_str("entries"), JsonValue::Array(items));
    let a1 = (String::from_str("invalidatedActions"), text_array(&queue.invalidated_actions));
    let a2 = (String::from_str("invalidatedValidations"), text_array(&queue.invalidated_validations));
    let a3 = (String::from_str("replanRequired"), JsonValue::Bool(queue.replan_required));
    let a4 = (String::from_str("roots"), text_array(&queue.roots));
    proof { lemma_fields_push(attrs@, a0); }
    attrs.push(a0);
    proof { lemma_fields_push(attrs@, a1); }
    attrs.push(a1);
    proof { lemma_fields_push(attrs@, a2); }
    attrs.push(a2);
    proof { lemma_fields_push(attrs@, a3); }
    attrs.push(a3);
    proof { lemma_fields_push(attrs@, a4); }
    attrs.push(a4);
    assert(json_fields_view(Seq::<(String, JsonValue)>::empty()) =~= Seq::empty());
    assert(json_fields_view(attrs@) =~= queue_node(
        queue.queue_id@,
        views(queue.entries@),
        strings_view(queue.invalidated_actions@),
        strings_view(queue.invalidated_validations@),
        queue.replan_required,
        strings_view(queue.roots@),
    ).attributes);
    let n = make_node(
        node_id("revalidation_queue", queue.queue_id.as_str()),
        queue.queue_id.clone(),
        "RevalidationQueue",
        attrs,
    );
    let mut d = GraphDelta::empty();
    d.create_nodes.push(n);
    assert(views(d.create_nodes@) =~= seq![
        queue_node(
            queue.queue_id@,
            views(queue.entries@),
            strings_view(queue.invalidated_actions@),
            strings_view(queue.invalidated_validations@),
            queue.replan_required,
            strings_view(queue.roots@),
        ),
    ]);
    d
}

/// An action node marked replanned because of the queue's roots.
pub open spec fn replanned(n: NodeV, roots: Seq<Seq<char>>) -> NodeV {
    NodeV {
        attributes: attr_set(
            attr_set(attr_set(n.attributes, "state"@, JsonV::Text("Replanned"@)), "replanReason"@, JsonV::Text(
                "impact invalidation"@,
            )),
            "invalidatedBy"@,
            JsonV::Array(texts(roots)),
        ),
        ..n
    }
}

pub open spec fn replans(ids: Seq<Seq<char>>, nm: Map<Seq<char>, NodeV>, roots: Seq<Seq<char>>) -> Seq<NodeV>
    decreases ids.len(),
{
    if ids.len() == 0 {
        Seq::empty()
    } else {
        let r = replans(ids.drop_last(), nm, roots);
        let id = ids.last();
        if nm.contains_key(id) && nm[id].node_type == "ActionNode"@ {
            r.push(replanned(nm[id], roots))
        } else {
            r
        }
    }
}

/// A delta that updates each invalidated action node of the graph, marked
/// replanned, and nothing else.
pub fn replan_delta_from_queue(graph: &Graph, queue: &RevalidationQueue) -> (d: GraphDelta)
    ensures
        views(d.update_nodes@) == replans(strings_view(queue.invalidated_actions@), graph.node_map(), strings_view(queue.roots@)),
        d.create_nodes@.len() == 0,
        d.delete_nodes@.len() == 0,
        d.create_edges@.len() == 0,
        d.update_edges@.len() == 0,
        d.delete_edges@.len() == 0,
{
    let ghost ids = strings_view(queue.invalidated_actions@);
    let ghost nm = graph.node_map();
    let ghost roots = strings_view(queue.roots@);
    let mut d = GraphDelta::empty();
    let mut i: usize = 0;
    while i < queue.invalidated_actions.len()
        invariant
            i <= ids.len(),
            ids == strings_view(queue.invalidated_actions@),
            nm == graph.node_map(),
            roots == strings_view(queue.roots@),
            views(d.update_nodes@) == replans(ids.take(i as int), nm, roots),
            d.create_nodes@.len() == 0,
            d.delete_nodes@.len() == 0,
            d.create_edges@.len() == 0,
            d.update_edges@.len() == 0,
            d.delete_edges@.len() == 0,
        decreases ids.len() - i,
    {
        assert(ids.take(i + 1).drop_last() =~= ids.take(i as int));
        assert(ids.take(i + 1).last() == queue.invalidated_actions@[i as int]@);
        if let Some(n) = graph.node(queue.invalidated_actions[i].as_str()) {
            if eq_str(&string_chars(&n.node_type), "ActionNode") {
                let mut updated = n.duplicate();
                set_attribute(&mut updated.attributes, "state", JsonValue::Text(String::from_str("Replanned")));
                set_attribute(
                    &mut updated.attributes,
                    "replanReason",
                    JsonValue::Text(String::from_str("impact invalidation")),
                );
                set_attribute(&mut updated.attributes, "invalidatedBy", text_array(&queue.roots));
                let ghost before = views(d.update_nodes@);
                d.update_nodes.push(updated);
                assert(views(d.update_nodes@) =~= before.push(replanned(nm[ids[i as int]], roots)));
            }
        }
        i = i + 1;
    }
    assert(ids.take(ids.len() as int) =~= ids);
    d
}

#[derive(Debug, Clone, PartialEq, Eq)]
pub struct PolicyImpactReplan {
    pub changed_policies: Vec<String>,
    pub impact: ImpactAnalysis,
    pub queue: RevalidationQueue,
    pub continuation_blockers: Vec<String>,
}

/// An action node that is still live and so must be replanned before it goes on.
pub open spec fn needs_replan(nm: Map<Seq<char>, NodeV>, id: Seq<char>) -> bool {
    &&& nm.contains_key(id)
    &&& nm[id].node_type == "ActionNode"@
    &&& match attr_text(nm[id].attributes, "state"@) {
        Some(s) => s == "Ready"@ || s == "InProgress"@ || s == "Blocked"@ || s == "Failed"@,
        None => false,
    }
}

pub fn action_requires_replan_before_continuation(graph: &Graph, action_id: &str) -> (r: bool)
    ensures
        r == needs_replan(graph.node_map(), action_id@),
{
    match graph.node(action_id) {
        Some(n) => {
            if !eq_str(&string_chars(&n.node_type), "ActionNode") {
                return false;
            }
            match fields_text(&n.attributes, "state") {
                Some(s) => {
                    let c = string_chars(&s);
                    eq_str(&c, "Ready") || eq_str(&c, "InProgress") || eq_str(&c, "Blocked") || eq_str(&c, "Failed")
                },
                None => false,
            }
        },
        None => false,
    }
}

pub open spec fn live_actions(ids: Seq<Seq<char>>, nm: Map<Seq<char>, NodeV>) -> Seq<Seq<char>>
    decreases ids.len(),
{
    if ids.len() == 0 {
        Seq::empty()
    } else if needs_replan(nm, ids.last()) {
        live_actions(ids.drop_last(), nm).push(ids.last())
    } else {
        live_actions(ids.drop_last(), nm)
    }
}

/// The impact of changed policies, the queue it invalidates (policy change
/// as the default reason), and the invalidated actions that are still live.
pub fn policy_impact_replan(graph: &Graph, changed_policies: Vec<String>, max_depth: usize) -> (r: PolicyImpactReplan)
    ensures
        strings_view(r.changed_policies@) == strings_view(changed_policies@),
        strings_view(r.impact.impacted_nodes@) == impacted(*graph, strings_view(changed_policies@), max_depth as nat),
        strings_view(r.impact.traversed_edges@) == traversed(*graph, strings_view(changed_policies@), max_depth as nat),
        keyed_map::<RevalidationQueueEntry>(views(r.queue.entries@)) == Map::new(
            |id: Seq<char>| queued(graph.node_map(), strings_view(r.impact.impacted_nodes@), id),
            |id: Seq<char>| queue_entry(
                graph.node_map()[id],
                strings_view(changed_policies@),
                ImpactInvalidationReason::PolicyChanged,
            ),
        ),
        keyed_sorted::<RevalidationQueueEntry>(views(r.queue.entries@)),
        strings_view(r.queue.invalidated_actions@) == entry_ids(views(r.queue.entries@), true),
        strings_view(r.continuation_blockers@) == live_actions(strings_view(r.queue.invalidated_actions@), graph.node_map()),
{
    let copy = changed_policies.clone();
    assert(strings_view(copy@) =~= strings_view(changed_policies@)) by {
        assert forall|k: int| 0 <= k < copy@.len() implies strings_view(copy@)[k] == strings_view(changed_policies@)[k] by {
            assert(cloned::<String>(changed_policies@[k], copy@[k]));
        }
    }
    let impact = analyze_impact(graph, copy, max_depth);
    let queue = build_revalidation_queue_with_reason(graph, &impact, ImpactInvalidationReason::PolicyChanged);
    let ghost ids = strings_view(queue.invalidated_actions@);
    let mut blockers: Vec<String> = Vec::new();
    let mut i: usize = 0;
    while i < queue.invalidated_actions.len()
        invariant
            i <= ids.len(),
            ids == strings_view(queue.invalidated_actions@),
            strings_view(blockers@) == live_actions(ids.take(i as int), graph.node_map()),
        decreases ids.len() - i,
    {
        assert(ids.take(i + 1).drop_last() =~= ids.take(i as int));
        assert(ids.take(i + 1).last() == queue.invalidated_actions@[i as int]@);
        if action_requires_replan_before_continuation(graph, queue.invalidated_actions[i].as_str()) {
            let ghost before = strings_view(blockers@);
            blockers.push(queue.invalidated_actions[i].clone());
            assert(strings_view(blockers@) =~= before.push(ids[i as int]));
        }
        i = i + 1;
    }
    assert(ids.take(ids.len() as int) =~= ids);
    PolicyImpactReplan { changed_policies, impact, queue, continuation_blockers: blockers }
}

/// What blocks an action from continuing: one message when the replan
/// lists it among its blockers, none otherwise.
pub fn continuation_blockers_for_action(action_id: &str, replan: &PolicyImpactReplan) -> (r: Vec<String>)
    ensures
        strings_view(r@) == if strings_view(replan.continuation_blockers@).contains(action_id@) {
            seq![
                "Action `"@ + action_id@
                    + "` is invalidated by policy/impact changes and must be replanned before continuation"@,
            ]
        } else {
            Seq::<Seq<char>>::empty()
        },
{
    let mut out: Vec<String> = Vec::new();
    if contains_string(&replan.continuation_blockers, action_id) {
        out.push(
            msg3(
                "Action `",
                &chars_of(action_id),
                "` is invalidated by policy/impact changes and must be replanned before continuation",
            ),
        );
    }
    assert(strings_view(out@) =~= if strings_view(replan.continuation_blockers@).contains(action_id@) {
        seq![
            "Action `"@ + action_id@
                + "` is invalidated by policy/impact changes and must be replanned before continuation"@,
        ]
    } else {
        Seq::<Seq<char>>::empty()
    });
    out
}

} // verus!
