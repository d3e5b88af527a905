//! The issue lifecycle: the evidence a bug must gather before it can close.

use crate::keyed::views;
use crate::model::{
    Edge, EdgeV, Finding, FindingSeverity, Graph, GraphDelta, JsonV, JsonValue, Node, NodeV, attr_text,
    fields_text, findings_full, json_fields_view, make_node, push_related_finding, push_text,
};
use crate::text::{append, chars_of, eq_chars, eq_str, msg3, string_chars, string_of, strings_view};
use vstd::prelude::*;

verus! {

#[derive(Debug, Clone, Copy, PartialEq, Eq, Structural)]
pub enum IssueKind {
    Bug,
    Task,
    Improvement,
}

#[derive(Debug, Clone, Copy, PartialEq, Eq, Structural)]
pub enum IssueState {
    Open,
    Reproduced,
    RootCaused,
    FixSpecified,
    RegressionCovered,
    Closed,
}

#[derive(Debug, Clone, PartialEq, Eq)]
pub struct IssueLifecycleReport {
    pub issue_id: String,
    pub kind: IssueKind,
    pub state: IssueState,
    pub has_reproduction: bool,
    pub has_failing_test: bool,
    pub has_root_cause: bool,
    pub has_fix_spec: bool,
    pub has_regression_evidence: bool,
    pub has_closure_evidence: bool,
    pub findings: Vec<Finding>,
    pub can_close: bool,
}

pub open spec fn state_name(s: IssueState) -> Seq<char> {
    match s {
        IssueState::Open => "Open"@,
        IssueState::Reproduced => "Reproduced"@,
        IssueState::RootCaused => "RootCaused"@,
        IssueState::FixSpecified => "FixSpecified"@,
        IssueState::RegressionCovered => "RegressionCovered"@,
        IssueState::Closed => "Closed"@,
    }
}

impl IssueState {
    pub fn as_str(self) -> (r: &'static str)
        ensures
            r@ == state_name(self),
    {
        match self {
            IssueState::Open => "Open",
            IssueState::Reproduced => "Reproduced",
            IssueState::RootCaused => "RootCaused",
            IssueState::FixSpecified => "FixSpecified",
            IssueState::RegressionCovered => "RegressionCovered",
            IssueState::Closed => "Closed",
        }
    }
}

/// The kind an issue records; a bug unless it says task or improvement.
pub open spec fn issue_kind(n: NodeV) -> IssueKind {
    match attr_text(n.attributes, "kind"@) {
        Some(k) => if k == "Task"@ {
            IssueKind::Task
        } else if k == "Improvement"@ {
            IssueKind::Improvement
        } else {
            IssueKind::Bug
        },
        None => IssueKind::Bug,
    }
}

/// The state an issue records; open unless it names a later state.
pub open spec fn issue_state(n: NodeV) -> IssueState {
    match attr_text(n.attributes, "state"@) {
        Some(s) => if s == "Reproduced"@ {
            IssueState::Reproduced
        } else if s == "RootCaused"@ {
            IssueState::RootCaused
        } else if s == "FixSpecified"@ {
            IssueState::FixSpecified
        } else if s == "RegressionCovered"@ {
            IssueState::RegressionCovered
        } else if s == "Closed"@ {
            IssueState::Closed
        } else {
            IssueState::Open
        },
        None => IssueState::Open,
    }
}

fn read_state(n: &Node) -> (r: IssueState)
    ensures
        r == issue_state(n@),
{
    match fields_text(&n.attributes, "state") {
        Some(s) => {
            let c = string_chars(&s);
            if eq_str(&c, "Reproduced") {
                IssueState::Reproduced
            } else if eq_str(&c, "RootCaused") {
                IssueState::RootCaused
            } else if eq_str(&c, "FixSpecified") {
                IssueState::FixSpecified
            } else if eq_str(&c, "RegressionCovered") {
                IssueState::RegressionCovered
            } else if eq_str(&c, "Closed") {
                IssueState::Closed
            } else {
                IssueState::Open
            }
        },
        None => IssueState::Open,
    }
}

/// The far end of an edge that touches the issue.
pub open spec fn far_end(e: EdgeV, id: Seq<char>) -> Option<Seq<char>> {
    if e.from == id {
        Some(e.to)
    } else if e.to == id {
        Some(e.from)
    } else {
        None
    }
}

/// A node linked to the issue, by an edge either way, is of type `ty`.
pub open spec fn linked_at(e: EdgeV, nm: Map<Seq<char>, NodeV>, id: Seq<char>, ty: Seq<char>) -> bool {
    match far_end(e, id) {
        Some(o) => nm.contains_key(o) && nm[o].node_type == ty,
        None => false,
    }
}

pub open spec fn linked_of_type(es: Seq<EdgeV>, nm: Map<Seq<char>, NodeV>, id: Seq<char>, ty: Seq<char>) -> bool {
    exists|i: int| 0 <= i < es.len() && #[trigger] linked_at(es[i], nm, id, ty)
}

fn has_linked(graph: &Graph, issue_id: &str, ty: &str) -> (r: bool)
    ensures
        r == linked_of_type(graph.edge_seq(), graph.node_map(), issue_id@, ty@),
{
    let edges = graph.edges();
    let ghost es = views(edges@);
    let id = chars_of(issue_id);
    let mut i: usize = 0;
    while i < edges.len()
        invariant
            i <= edges@.len(),
            es == views(edges@),
            es == graph.edge_seq(),
            id@ == issue_id@,
            forall|j: int| 0 <= j < i ==> !#[trigger] linked_at(es[j], graph.node_map(), issue_id@, ty@),
        decreases edges@.len() - i,
    {
        let e = &edges[i];
        assert(es[i as int] == e@);
        let other = if eq_chars(&string_chars(&e.from), &id) {
            Some(&e.to)
        } else if eq_chars(&string_chars(&e.to), &id) {
            Some(&e.from)
        } else {
            None
        };
        if let Some(o) = other {
            if let Some(n) = graph.node(o.as_str()) {
                if eq_str(&string_chars(&n.node_type), ty) {
                    assert(linked_at(es[i as int], graph.node_map(), issue_id@, ty@));
                    return true;
                }
            }
        }
        i = i + 1;
    }
    false
}

pub open spec fn issue_message(id: Seq<char>, message: Seq<char>) -> Seq<char> {
    message + " Remediation: add the missing IssueGraph evidence before closing `"@ + id + "`."@
}

pub type FullFinding = (Seq<char>, FindingSeverity, Seq<char>, Seq<Seq<char>>, Seq<Seq<char>>);

pub open spec fn issue_err(id: Seq<char>, missing: bool, code: Seq<char>, message: Seq<char>) -> Seq<FullFinding> {
    if missing {
        seq![(code, FindingSeverity::Error, issue_message(id, message), seq![id], Seq::empty())]
    } else {
        Seq::empty()
    }
}

/// What a bug lacks: reproduction, a failing test, a root cause, a fix
/// spec, regression evidence, and, once closed, closure evidence. Other
/// kinds lack nothing.
pub open spec fn issue_findings(
    id: Seq<char>,
    kind: IssueKind,
    state: IssueState,
    repro: bool,
    failing: bool,
    root: bool,
    fix: bool,
    regression: bool,
    closure: bool,
) -> Seq<FullFinding> {
    if kind != IssueKind::Bug {
        Seq::empty()
    } else {
        issue_err(id, !repro, "issue.reproduction_required"@, "Bug issues require at least one ReproductionStep before fix work starts."@)
        + issue_err(id, !failing, "issue.failing_test_required"@, "Bug issues require failing test evidence before fix specification."@)
        + issue_err(id, !root, "issue.root_cause_required"@, "Bug issues require a RootCause classification before fix specification."@)
        + issue_err(id, !fix, "issue.fix_spec_required"@, "Bug issues require a FixSpec linked to the remediation plan."@)
        + issue_err(id, !regression, "issue.regression_required"@, "Bug closure requires regression evidence proving the bug will not recur."@)
        + issue_err(id, state == IssueState::Closed && !closure, "issue.closure_evidence_required"@,
            "Closed bugs require ClosureEvidence with validation and release context."@)
    }
}

fn push_issue_finding(findings: &mut Vec<Finding>, code: &str, issue_id: &str, message: &str)
    ensures
        findings_full(final(findings)@) == findings_full(old(findings)@) + issue_err(issue_id@, true, code@, message@),
{
    let mut m = chars_of(message);
    append(&mut m, &chars_of(" Remediation: add the missing IssueGraph evidence before closing `"));
    append(&mut m, &chars_of(issue_id));
    append(&mut m, &chars_of("`."));
    let mut related: Vec<String> = Vec::new();
    related.push(String::from_str(issue_id));
    assert(strings_view(related@) =~= seq![issue_id@]);
    let none: Vec<String> = Vec::new();
    assert(strings_view(none@) =~= Seq::<Seq<char>>::empty());
    let ghost f0 = findings_full(findings@);
    push_related_finding(findings, code, string_of(&m), related, none);
    assert(findings_full(findings@) =~= f0 + issue_err(issue_id@, true, code@, message@));
}

/// The lifecycle evidence of an issue of the graph.
pub fn validate_issue_lifecycle(graph: &Graph, issue_id: &str) -> (r: IssueLifecycleReport)
    requires
        graph.node_map().contains_key(issue_id@),
    ensures
        r.issue_id@ == issue_id@,
        r.kind == issue_kind(graph.node_map()[issue_id@]),
        r.state == issue_state(graph.node_map()[issue_id@]),
        r.has_reproduction == linked_of_type(graph.edge_seq(), graph.node_map(), issue_id@, "ReproductionStep"@),
        r.has_failing_test == linked_of_type(graph.edge_seq(), graph.node_map(), issue_id@, "FailingTest"@),
        r.has_root_cause == linked_of_type(graph.edge_seq(), graph.node_map(), issue_id@, "RootCause"@),
        r.has_fix_spec == linked_of_type(graph.edge_seq(), graph.node_map(), issue_id@, "FixSpec"@),
        r.has_regression_evidence == (linked_of_type(graph.edge_seq(), graph.node_map(), issue_id@, "RegressionTest"@)
            || linked_of_type(graph.edge_seq(), graph.node_map(), issue_id@, "Regression"@)),
        r.has_closure_evidence == linked_of_type(graph.edge_seq(), graph.node_map(), issue_id@, "ClosureEvidence"@),
        findings_full(r.findings@) == issue_findings(
            issue_id@,
            r.kind,
            r.state,
            r.has_reproduction,
            r.has_failing_test,
            r.has_root_cause,
            r.has_fix_spec,
            r.has_regression_evidence,
            r.has_closure_evidence,
        ),
        r.can_close == (r.findings@.len() == 0 && r.has_closure_evidence),
{
    let issue = match graph.node(issue_id) {
        Some(n) => n,
        None => {
            proof {
                assert(false);
            }
            return IssueLifecycleReport {
                issue_id: String::from_str(issue_id),
                kind: IssueKind::Bug,
                state: IssueState::Open,
                has_reproduction: false,
                has_failing_test: false,
                has_root_cause: false,
                has_fix_spec: false,
                has_regression_evidence: false,
                has_closure_evidence: false,
                findings: Vec::new(),
                can_close: false,
            };
        },
    };
    let kind = match fields_text(&issue.attributes, "kind") {
        Some(k) => {
            let c = string_chars(&k);
            if eq_str(&c, "Task") {
                IssueKind::Task
            } else if eq_str(&c, "Improvement") {
                IssueKind::Improvement
            } else {
                IssueKind::Bug
            }
        },
        None => IssueKind::Bug,
    };
    let state = read_state(issue);
    let has_reproduction = has_linked(graph, issue_id, "ReproductionStep");
    let has_failing_test = has_linked(graph, issue_id, "FailingTest");
    let has_root_cause = has_linked(graph, issue_id, "RootCause");
    let has_fix_spec = has_linked(graph, issue_id, "FixSpec");
    let has_regression_evidence = has_linked(graph, issue_id, "RegressionTest") || has_linked(graph, issue_id, "Regression");
    let has_closure_evidence = has_linked(graph, issue_id, "ClosureEvidence");
    let mut findings: Vec<Finding> = Vec::new();
    assert(findings_full(findings@) =~= Seq::empty());
    if kind == IssueKind::Bug {
        let ghost f0 = findings_full(findings@);
        if !has_reproduction {
            push_issue_finding(&mut findings, "issue.reproduction_required", issue_id,
                "Bug issues require at least one ReproductionStep before fix work starts.");
        }
        let ghost f1 = findings_full(findings@);
        if !has_failing_test {
            push_issue_finding(&mut findings, "issue.failing_test_required", issue_id,
                "Bug issues require failing test evidence before fix specification.");
        }
        let ghost f2 = findings_full(findings@);
        if !has_root_cause {
            push_issue_finding(&mut findings, "issue.root_cause_required", issue_id,
                "Bug issues require a RootCause classification before fix specification.");
        }
        let ghost f3 = findings_full(findings@);
        if !has_fix_spec {
            push_issue_finding(&mut findings, "issue.fix_spec_required", issue_id,
                "Bug issues require a FixSpec linked to the remediation plan.");
        }
        let ghost f4 = findings_full(findings@);
        if !has_regression_evidence {
            push_issue_finding(&mut findings, "issue.regression_required", issue_id,
                "Bug closure requires regression evidence proving the bug will not recur.");
        }
        let ghost f5 = findings_full(findings@);
        if state == IssueState::Closed && !has_closure_evidence {
            push_issue_finding(&mut findings, "issue.closure_evidence_required", issue_id,
                "Closed bugs require ClosureEvidence with validation and release context.");
        }
        assert(findings_full(findings@) =~= issue_findings(issue_id@, kind, state, has_reproduction, has_failing_test,
            has_root_cause, has_fix_spec, has_regression_evidence, has_closure_evidence));
    }
    let can_close = findings.len() == 0 && has_closure_evidence;
    IssueLifecycleReport {
        issue_id: String::from_str(issue_id),
        kind,
        state,
        has_reproduction,
        has_failing_test,
        has_root_cause,
        has_fix_spec,
        has_regression_evidence,
        has_closure_evidence,
        findings,
        can_close,
    }
}

/// The issue node as a delta records it: id, key `issue:<id>`, its state.
pub open spec fn issue_nodev(id: Seq<char>, state: IssueState) -> NodeV {
    NodeV {
        id: id,
        stable_key: "issue:"@ + id,
        node_type: "Issue"@,
        attributes: seq![("state"@, JsonV::Text(state_name(state)))],
    }
}

/// A delta that creates the evidence nodes and, when there is any, moves
/// the issue to `state`.
pub fn issue_lifecycle_delta(issue_id: &str, state: IssueState, evidence: Vec<Node>) -> (d: GraphDelta)
    ensures
        views(d.create_nodes@) == views(evidence@),
        views(d.update_nodes@) == if evidence@.len() > 0 {
            seq![issue_nodev(issue_id@, state)]
        } else {
            Seq::<NodeV>::empty()
        },
        d.delete_nodes@.len() == 0,
        d.create_edges@.len() == 0,
        d.update_edges@.len() == 0,
        d.delete_edges@.len() == 0,
{
    let mut d = GraphDelta::empty();
    if evidence.len() > 0 {
        let mut attrs: Vec<(String, JsonValue)> = Vec::new();
        assert(json_fields_view(attrs@) =~= Seq::empty());
        push_text(&mut attrs, "state", state.as_str());
        let mut key = chars_of("issue:");
        append(&mut key, &chars_of(issue_id));
        assert(json_fields_view(attrs@) =~= issue_nodev(issue_id@, state).attributes);
        d.update_nodes.push(make_node(String::from_str(issue_id), string_of(&key), "Issue", attrs));
    }
    d.create_nodes = evidence;
    assert(views(d.update_nodes@) =~= if evidence@.len() > 0 {
        seq![issue_nodev(issue_id@, state)]
    } else {
        Seq::<NodeV>::empty()
    });
    d
}

} // verus!
