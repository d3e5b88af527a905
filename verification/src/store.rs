//! The on-disk store's pure parts: its layout, its option and report
//! records, and the spec lifecycle state machine.

use crate::code_indexer::join_path;
use crate::git::CommitValidationInput;
use crate::git_graph::{has_outgoing, outgoing};
use crate::keyed::views;
use crate::spec::{make_spec_edge, spec_edge, spec_node_id};
use crate::git::{find_out, find_target, first_out, first_spec, first_target, find_spec};
use crate::ids::node_id;
use crate::model::{
    Edge, EdgeV, Finding, FindingSeverity, Graph, GraphDelta, JsonV, JsonValue, Node, NodeV, attr_text,
    OperationRequest, attr_texts, fields_text, fields_texts, json_fields_view, json_seq_view, json_view,
    lemma_json_seq_push, make_node, push_attr, push_text, texts,
};
use crate::policy::PolicyReport;
use crate::text::{
    append, append_str, chars_of, is_ascii_alnum, is_ascii_alnum_exec, lower, lower_exec, starts_with,
    starts_with_exec, string_chars, string_of, eq_str, eq_chars, str_eq, strings_view, sorted_insert,
    sorted_list, sorted_strict, lemma_sorted_list,
};
use vstd::prelude::*;

verus! {

/// A SpecGraph store rooted at a repository directory.
#[derive(Debug, Clone)]
pub struct SpecGraphStore {
    root: String,
}

impl SpecGraphStore {
    pub closed spec fn root_view(&self) -> Seq<char> {
        self.root@
    }

    pub fn new(root: String) -> (s: Self)
        ensures
            s.root_view() == root@,
    {
        SpecGraphStore { root }
    }

    pub fn root(&self) -> (r: &str)
        ensures
            r@ == self.root_view(),
    {
        self.root.as_str()
    }

    /// `<root>/.specgraph`.
    pub fn specgraph_dir(&self) -> (r: String)
        ensures
            r@ == join_path(self.root_view(), ".specgraph"@),
    {
        let root = string_chars(&self.root);
        let mut out: Vec<char> = Vec::new();
        if root.len() == 0 {
            append_str(&mut out, ".specgraph");
        } else if root[root.len() - 1] == '/' {
            append(&mut out, &root);
            append_str(&mut out, ".specgraph");
        } else {
            append(&mut out, &root);
            append_str(&mut out, "/");
            append_str(&mut out, ".specgraph");
        }
        string_of(&out)
    }
}

#[derive(Debug, Clone)]
pub struct InitOptions {
    pub project_name: String,
    pub actor: String,
    pub graph_branch: String,
}

#[derive(Debug, Clone, Copy, Default)]
pub struct ReplayOptions {
    pub check_hashes: bool,
}

#[derive(Debug, Clone)]
pub struct BindBranchOptions {
    pub spec: String,
    pub branch: String,
    pub actor: String,
    pub graph_branch: String,
}

#[derive(Debug, Clone)]
pub struct TransitionSpecOptions {
    pub spec: String,
    pub state: String,
    pub actor: String,
    pub graph_branch: String,
}

#[derive(Debug, Clone, PartialEq, Eq)]
pub struct SpecStatusSummary {
    pub spec: String,
    pub state: String,
    pub blockers: Vec<String>,
    pub next_states: Vec<String>,
}

#[derive(Debug, Clone)]
pub struct GenerateActionGraphOptions {
    pub spec: String,
    pub actor: String,
    pub graph_branch: String,
}

#[derive(Debug, Clone)]
pub struct ActionLifecycleOptions {
    pub action: String,
    pub actor: String,
    pub graph_branch: String,
    pub reason: Option<String>,
}

#[derive(Debug, Clone)]
pub struct RecordCommitOptions {
    pub input: CommitValidationInput,
    pub actor: String,
    pub graph_branch: String,
}

#[derive(Debug, Clone)]
pub struct UpsertActorOptions {
    pub actor_id: String,
    pub display_name: Option<String>,
    pub provider: Option<String>,
    pub subject: Option<String>,
    pub actor: String,
    pub graph_branch: String,
}

#[derive(Debug, Clone)]
pub struct GrantRoleOptions {
    pub actor_id: String,
    pub role: String,
    pub permissions: Vec<String>,
    pub actor: String,
    pub graph_branch: String,
}

#[derive(Debug, Clone)]
pub struct RecordApprovalOptions {
    pub approval_id: String,
    pub approval: String,
    pub policy: Option<String>,
    pub scope: Option<String>,
    pub reason: Option<String>,
    pub approved_by: String,
    pub actor: String,
    pub graph_branch: String,
}

#[derive(Debug, Clone)]
pub struct CreateWaiverOptions {
    pub waiver_id: String,
    pub policy: String,
    pub reason: String,
    pub approved_by: String,
    pub expires_at: Option<String>,
    pub scope: Option<String>,
    pub actor: String,
    pub graph_branch: String,
}

#[derive(Debug, Clone)]
pub struct RecordPolicyReportOptions {
    pub policy_run_id: String,
    pub checked_operation: String,
    pub changed_files: Vec<String>,
    pub actor: String,
    pub graph_branch: String,
    pub report: PolicyReport,
}

#[derive(Debug, Clone)]
pub struct ActionGroupSummary {
    pub id: String,
    pub name: String,
    pub action_count: usize,
    pub commit_plan_count: usize,
}

#[derive(Debug, Clone)]
pub struct ActionGraphSummary {
    pub spec: String,
    pub action_graph_id: String,
    pub groups: Vec<ActionGroupSummary>,
}

#[derive(Debug, Clone)]
pub struct SpecValidationReport {
    pub state_hash: String,
    pub findings: Vec<Finding>,
}

#[derive(Debug, Clone)]
pub struct SnapshotValidationReport {
    pub snapshots_checked: usize,
    pub findings: Vec<Finding>,
}

#[derive(Debug, Clone)]
pub struct BranchMetadata {
    pub schema_version: String,
    pub branch: String,
    pub spec: String,
    pub graph_branch: String,
    pub base_snapshot_id: String,
    pub base_state_hash: String,
    pub base_event_sequence: u64,
    pub base_event_id: Option<String>,
    pub created_by: String,
}

#[derive(Debug, Clone)]
pub struct BranchMetadataValidationReport {
    pub branches_checked: usize,
    pub findings: Vec<Finding>,
}

#[derive(Debug, Clone)]
pub struct RebuildReport {
    pub state_hash: String,
    pub events_replayed: usize,
    pub last_sequence: u64,
    pub snapshots_rebuilt: usize,
    pub indexes_rebuilt: usize,
    pub nodes: usize,
    pub edges: usize,
}

/// The spec lifecycle: each state and the one state it may advance to.
pub open spec fn spec_successor(state: Seq<char>) -> Option<Seq<char>> {
    if state == "Draft"@ {
        Some("Validated"@)
    } else if state == "Validated"@ {
        Some("Planned"@)
    } else if state == "Planned"@ {
        Some("BranchBound"@)
    } else if state == "BranchBound"@ {
        Some("Implementing"@)
    } else if state == "Implementing"@ {
        Some("Review"@)
    } else if state == "Review"@ {
        Some("Released"@)
    } else {
        None
    }
}

pub open spec fn statics_view(v: Seq<&'static str>) -> Seq<Seq<char>> {
    v.map_values(|s: &'static str| s@)
}

/// The states a spec in `state` may move to next.
pub fn next_spec_states(state: &str) -> (r: Vec<&'static str>)
    ensures
        statics_view(r@) == match spec_successor(state@) {
            Some(n) => seq![n],
            None => Seq::empty(),
        },
{
    let s = chars_of(state);
    let next: Option<&'static str> = if eq_str(&s, "Draft") {
        Some("Validated")
    } else if eq_str(&s, "Validated") {
        Some("Planned")
    } else if eq_str(&s, "Planned") {
        Some("BranchBound")
    } else if eq_str(&s, "BranchBound") {
        Some("Implementing")
    } else if eq_str(&s, "Implementing") {
        Some("Review")
    } else if eq_str(&s, "Review") {
        Some("Released")
    } else {
        None
    };
    let mut out: Vec<&'static str> = Vec::new();
    if let Some(n) = next {
        out.push(n);
    }
    assert(statics_view(out@) =~= match spec_successor(state@) {
        Some(n) => seq![n],
        None => Seq::<Seq<char>>::empty(),
    });
    out
}

/// Every state reaches `Released` along the lifecycle, in as many steps as
/// states lie between: the lifecycle is a chain without cycles.
pub proof fn spec_lifecycle_is_a_chain()
    ensures
        spec_successor("Released"@) is None,
        spec_successor("Draft"@) == Some("Validated"@),
        spec_successor("Validated"@) == Some("Planned"@),
        spec_successor("Planned"@) == Some("BranchBound"@),
        spec_successor("BranchBound"@) == Some("Implementing"@),
        spec_successor("Implementing"@) == Some("Review"@),
        spec_successor("Review"@) == Some("Released"@),
{
    reveal_strlit("Released");
    reveal_strlit("Draft");
    reveal_strlit("Validated");
    reveal_strlit("Planned");
    reveal_strlit("BranchBound");
    reveal_strlit("Implementing");
    reveal_strlit("Review");
    assert("Released"@.len() == 8 && "Draft"@.len() == 5 && "Validated"@.len() == 9);
    assert("Planned"@.len() == 7 && "BranchBound"@.len() == 11 && "Implementing"@.len() == 12);
    assert("Review"@.len() == 6);
    assert("Released"@ != "Draft"@ && "Released"@ != "Validated"@ && "Released"@ != "Planned"@);
    assert("Released"@ != "BranchBound"@ && "Released"@ != "Implementing"@ && "Released"@ != "Review"@);
    assert("Implementing"@ != "Draft"@ && "Implementing"@ != "Validated"@ && "Implementing"@ != "Planned"@);
    assert("Implementing"@ != "BranchBound"@);
}

pub open spec fn stem_char(c: char) -> char {
    if is_ascii_alnum(c) || c == '-' || c == '_' {
        c
    } else {
        '_'
    }
}

/// A branch name as a file stem: characters other than ASCII letters,
/// digits, `-` and `_` become `_`.
pub fn branch_file_stem(branch: &str) -> (r: String)
    ensures
        r@ == branch@.map_values(|c: char| stem_char(c)),
{
    let b = chars_of(branch);
    let mut out: Vec<char> = Vec::new();
    let mut i: usize = 0;
    while i < b.len()
        invariant
            i <= b@.len(),
            out@ == b@.take(i as int).map_values(|c: char| stem_char(c)),
        decreases b@.len() - i,
    {
        let c = b[i];
        let keep = ('a' <= c && c <= 'z') || ('A' <= c && c <= 'Z') || ('0' <= c && c <= '9') || c
            == '-' || c == '_';
        out.push(if keep { c } else { '_' });
        assert(b@.take(i + 1).map_values(|c: char| stem_char(c)) =~= b@.take(i as int).map_values(
            |c: char| stem_char(c),
        ).push(stem_char(c)));
        i = i + 1;
    }
    assert(b@.take(b@.len() as int) =~= b@);
    string_of(&out)
}

/// Why a branch cannot carry a spec.
#[derive(Debug, Clone, PartialEq, Eq)]
pub enum BranchNameError {
    InvalidBranchName(String),
}

/// A spec branch is named `spec/<spec>-<slug>`: the prefix compared
/// case-insensitively, followed by a non-empty slug.
pub open spec fn spec_branch_ok(spec: Seq<char>, branch: Seq<char>) -> bool {
    let p = "spec/"@ + spec + "-"@;
    starts_with(lower(branch), lower(p)) && branch.len() > p.len()
}

pub fn validate_spec_branch_name(spec: &str, branch: &str) -> (r: Result<(), BranchNameError>)
    ensures
        r is Ok <==> spec_branch_ok(spec@, branch@),
        r matches Err(BranchNameError::InvalidBranchName(b)) ==> b@ == branch@,
{
    let mut expected = chars_of("spec/");
    append(&mut expected, &chars_of(spec));
    append_str(&mut expected, "-");
    let expected_prefix = lower_exec(&expected);
    let bc = chars_of(branch);
    let b = lower_exec(&bc);
    let refuse = Err(BranchNameError::InvalidBranchName(String::from_str(branch)));
    if !starts_with_exec(&b, &expected_prefix) {
        return refuse;
    }
    assert(expected_prefix@.len() == expected@.len());
    if bc.len() <= expected.len() {
        return refuse;
    }
    Ok(())
}

/// The number of error findings of a policy report.
pub open spec fn error_count(fs: Seq<Finding>) -> nat
    decreases fs.len(),
{
    if fs.len() == 0 {
        0
    } else {
        error_count(fs.drop_last()) + if fs.last().severity == FindingSeverity::Error {
            1nat
        } else {
            0nat
        }
    }
}

pub fn policy_error_count(report: &PolicyReport) -> (r: usize)
    ensures
        r == error_count(report.findings@),
{
    let mut count: usize = 0;
    let mut i: usize = 0;
    assert(report.findings@.take(0) =~= Seq::<Finding>::empty());
    while i < report.findings.len()
        invariant
            i <= report.findings@.len(),
            count == error_count(report.findings@.take(i as int)),
            count <= i,
        decreases report.findings@.len() - i,
    {
        assert(report.findings@.take(i + 1).drop_last() =~= report.findings@.take(i as int));
        if report.findings[i].severity == FindingSeverity::Error {
            count = count + 1;
        }
        i = i + 1;
    }
    assert(report.findings@.take(i as int) =~= report.findings@);
    count
}


// ------------------------------------------------------------ gates

pub open spec fn when_text(c: bool, t: Seq<char>) -> Seq<Seq<char>> {
    if c {
        seq![t]
    } else {
        Seq::empty()
    }
}

/// Some ValidationRun node has passed.
pub open spec fn has_passed_run(ns: Seq<NodeV>) -> bool {
    exists|i: int|
        0 <= i < ns.len() && (#[trigger] ns[i]).node_type == "ValidationRun"@ && attr_text(ns[i].attributes, "status"@)
            == Some("Passed"@)
}

/// Some commit node implements an action group.
pub open spec fn has_bound_commit(nm: Map<Seq<char>, NodeV>, es: Seq<EdgeV>) -> bool {
    exists|i: int|
        0 <= i < es.len() && (#[trigger] es[i]).edge_type == "IMPLEMENTS_ACTION_GROUP"@ && nm.contains_key(es[i].from)
            && nm[es[i].from].node_type == "GitCommit"@
}

/// Why a spec may not move to `target`: a branch from BranchBound on, an
/// action graph from Implementing on, a bound commit from Review on, passed
/// validation for Released.
pub open spec fn spec_blockers(nm: Map<Seq<char>, NodeV>, ns: Seq<NodeV>, es: Seq<EdgeV>, spec: Seq<char>, target: Seq<char>) -> Seq<
    Seq<char>,
> {
    when_text(
        (target == "BranchBound"@ || target == "Implementing"@ || target == "Review"@ || target == "Released"@)
            && !outgoing(es, spec, "BOUND_TO_BRANCH"@),
        "spec must be bound to a Git branch"@,
    ) + when_text(
        (target == "Implementing"@ || target == "Review"@ || target == "Released"@) && !outgoing(
            es,
            spec,
            "HAS_ACTION_GRAPH"@,
        ),
        "spec must have an ActionGraph"@,
    ) + when_text((target == "Review"@ || target == "Released"@) && !has_bound_commit(nm, es), "spec needs at least one bound GitCommit"@)
        + when_text(target == "Released"@ && !has_passed_run(ns), "spec needs passed ValidationRun evidence"@)
}

fn passed_run_exists(graph: &Graph) -> (r: bool)
    ensures
        r == has_passed_run(graph.node_seq()),
{
    let nodes = graph.nodes();
    let ghost ns = views(nodes@);
    let mut i: usize = 0;
    while i < nodes.len()
        invariant
            i <= nodes@.len(),
            ns == views(nodes@),
            ns == graph.node_seq(),
            forall|j: int|
                0 <= j < i ==> !((#[trigger] ns[j]).node_type == "ValidationRun"@ && attr_text(ns[j].attributes, "status"@)
                    == Some("Passed"@)),
        decreases nodes@.len() - i,
    {
        let n = &nodes[i];
        assert(ns[i as int] == n@);
        if eq_str(&string_chars(&n.node_type), "ValidationRun") {
            let passed = match fields_text(&n.attributes, "status") {
                Some(st) => eq_str(&string_chars(&st), "Passed"),
                None => false,
            };
            if passed {
                return true;
            }
        }
        i = i + 1;
    }
    false
}

fn bound_commit_exists(graph: &Graph) -> (r: bool)
    ensures
        r == has_bound_commit(graph.node_map(), graph.edge_seq()),
{
    let edges = graph.edges();
    let ghost es = views(edges@);
    let ghost nm = graph.node_map();
    let mut i: usize = 0;
    while i < edges.len()
        invariant
            i <= edges@.len(),
            es == views(edges@),
            es == graph.edge_seq(),
            nm == graph.node_map(),
            forall|j: int|
                0 <= j < i ==> !((#[trigger] es[j]).edge_type == "IMPLEMENTS_ACTION_GROUP"@ && nm.contains_key(es[j].from)
                    && nm[es[j].from].node_type == "GitCommit"@),
        decreases edges@.len() - i,
    {
        let e = &edges[i];
        assert(es[i as int] == e@);
        if eq_str(&string_chars(&e.edge_type), "IMPLEMENTS_ACTION_GROUP") {
            match graph.node(e.from.as_str()) {
                Some(n) => {
                    if eq_str(&string_chars(&n.node_type), "GitCommit") {
                        return true;
                    }
                },
                None => {},
            }
        }
        i = i + 1;
    }
    false
}

fn push_text_when(out: &mut Vec<String>, c: bool, t: &str)
    ensures
        strings_view(final(out)@) == strings_view(old(out)@) + when_text(c, t@),
{
    let ghost o = strings_view(out@);
    if c {
        out.push(String::from_str(t));
        assert(strings_view(out@) =~= o + seq![t@]);
    } else {
        assert(strings_view(out@) =~= o + Seq::<Seq<char>>::empty());
    }
}

/// Why the spec node `spec_node_id` may not move to `target_state`, in the
/// order the gates are checked.
pub fn spec_state_blockers(graph: &Graph, spec_node_id: &String, target_state: &str) -> (r: Vec<String>)
    ensures
        strings_view(r@) == spec_blockers(
            graph.node_map(),
            graph.node_seq(),
            graph.edge_seq(),
            spec_node_id@,
            target_state@,
        ),
{
    let t = chars_of(target_state);
    let edges = graph.edges();
    let mut out: Vec<String> = Vec::new();
    assert(strings_view(out@) =~= Seq::<Seq<char>>::empty());
    let branch_gate = eq_str(&t, "BranchBound") || eq_str(&t, "Implementing") || eq_str(&t, "Review") || eq_str(&t, "Released");
    push_text_when(&mut out, branch_gate && !has_outgoing(edges, spec_node_id, "BOUND_TO_BRANCH"), "spec must be bound to a Git branch");
    let graph_gate = eq_str(&t, "Implementing") || eq_str(&t, "Review") || eq_str(&t, "Released");
    push_text_when(&mut out, graph_gate && !has_outgoing(edges, spec_node_id, "HAS_ACTION_GRAPH"), "spec must have an ActionGraph");
    let commit_gate = eq_str(&t, "Review") || eq_str(&t, "Released");
    let needs_commit = if commit_gate {
        !bound_commit_exists(graph)
    } else {
        false
    };
    push_text_when(&mut out, needs_commit, "spec needs at least one bound GitCommit");
    let needs_run = if eq_str(&t, "Released") {
        !passed_run_exists(graph)
    } else {
        false
    };
    push_text_when(&mut out, needs_run, "spec needs passed ValidationRun evidence");
    out
}

pub open spec fn unfinished_dependencies(nm: Map<Seq<char>, NodeV>, es: Seq<EdgeV>, action: Seq<char>) -> Seq<Seq<char>>
    decreases es.len(),
{
    if es.len() == 0 {
        Seq::empty()
    } else {
        let e = es.last();
        unfinished_dependencies(nm, es.drop_last(), action) + when_text(
            e.from == action && e.edge_type == "DEPENDS_ON"@ && !(nm.contains_key(e.to) && attr_text(
                nm[e.to].attributes,
                "state"@,
            ) == Some("Completed"@)),
            "dependency action `"@ + e.to + "` must be Completed before `"@ + action + "` starts"@,
        )
    }
}

/// Why an action may not move to `target`: to start, each dependency it has
/// must be Completed; to complete, some validation run must have passed.
pub open spec fn action_blockers(nm: Map<Seq<char>, NodeV>, ns: Seq<NodeV>, es: Seq<EdgeV>, action: Seq<char>, target: Seq<char>) -> Seq<
    Seq<char>,
> {
    (if target == "InProgress"@ {
        unfinished_dependencies(nm, es, action)
    } else {
        Seq::empty()
    }) + when_text(target == "Completed"@ && !has_passed_run(ns), "action cannot complete without passed ValidationRun evidence"@)
}

/// Why the action `action_id` may not move to `target_state`.
pub fn action_lifecycle_blockers(graph: &Graph, action_id: &String, target_state: &str) -> (r: Vec<String>)
    ensures
        strings_view(r@) == action_blockers(
            graph.node_map(),
            graph.node_seq(),
            graph.edge_seq(),
            action_id@,
            target_state@,
        ),
{
    let t = chars_of(target_state);
    let mut out: Vec<String> = Vec::new();
    assert(strings_view(out@) =~= Seq::<Seq<char>>::empty());
    if eq_str(&t, "InProgress") {
        let edges = graph.edges();
        let ghost es = views(edges@);
        let ghost nm = graph.node_map();
        let ac = string_chars(action_id);
        let mut i: usize = 0;
        assert(strings_view(out@) =~= unfinished_dependencies(nm, es.take(0), action_id@));
        while i < edges.len()
            invariant
                i <= edges@.len(),
                es == views(edges@),
                es == graph.edge_seq(),
                nm == graph.node_map(),
                ac@ == action_id@,
                strings_view(out@) == unfinished_dependencies(nm, es.take(i as int), action_id@),
            decreases edges@.len() - i,
        {
            let e = &edges[i];
            assert(es[i as int] == e@);
            assert(es.take(i + 1).drop_last() =~= es.take(i as int));
            assert(es.take(i + 1).last() == e@);
            let is_dep = eq_chars(&string_chars(&e.from), &ac) && eq_str(&string_chars(&e.edge_type), "DEPENDS_ON");
            let done = match graph.node(e.to.as_str()) {
                Some(n) => match fields_text(&n.attributes, "state") {
                    Some(st) => eq_str(&string_chars(&st), "Completed"),
                    None => false,
                },
                None => false,
            };
            let ghost o = strings_view(out@);
            if is_dep && !done {
                let mut m = chars_of("dependency action `");
                append(&mut m, &string_chars(&e.to));
                append_str(&mut m, "` must be Completed before `");
                append(&mut m, &ac);
                append_str(&mut m, "` starts");
                out.push(string_of(&m));
                assert(strings_view(out@) =~= o + seq![
                    "dependency action `"@ + e.to@ + "` must be Completed before `"@ + action_id@ + "` starts"@,
                ]);
            } else {
                assert(strings_view(out@) =~= o + Seq::<Seq<char>>::empty());
            }
            i = i + 1;
        }
        assert(es.take(es.len() as int) =~= es);
    }
    let ghost before = strings_view(out@);
    let needs_run = if eq_str(&t, "Completed") {
        !passed_run_exists(graph)
    } else {
        false
    };
    push_text_when(&mut out, needs_run, "action cannot complete without passed ValidationRun evidence");
    out
}


// ------------------------------------------------------------ action graphs

/// The shape of one action group that a generated action graph holds.
#[derive(Debug, Clone, Copy)]
pub struct ActionGroupTemplate {
    pub name: &'static str,
    pub description: &'static str,
    pub action: &'static str,
    pub commit_plan: &'static str,
    pub allowed_paths: &'static [&'static str],
    pub required_validation: &'static [&'static str],
}

pub struct TemplateV {
    pub name: Seq<char>,
    pub description: Seq<char>,
    pub action: Seq<char>,
    pub commit_plan: Seq<char>,
    pub allowed_paths: Seq<Seq<char>>,
    pub required_validation: Seq<Seq<char>>,
}

pub open spec fn template_view(t: ActionGroupTemplate) -> TemplateV {
    TemplateV {
        name: t.name@,
        description: t.description@,
        action: t.action@,
        commit_plan: t.commit_plan@,
        allowed_paths: statics_view(t.allowed_paths@),
        required_validation: statics_view(t.required_validation@),
    }
}

/// The five action groups of the default action graph, in order.
pub open spec fn template_table() -> Seq<TemplateV> {
    seq![
        TemplateV {
            name: "graph"@,
            description: "Update SpecGraph metadata and projections."@,
            action: "Update graph facts and spec projections"@,
            commit_plan: "Commit graph metadata changes"@,
            allowed_paths: seq![".specgraph/**"@, "specs/**"@, "docs/**"@],
            required_validation: seq!["replay"@, "spec"@],
        },
        TemplateV {
            name: "tests"@,
            description: "Add or update tests linked to acceptance criteria."@,
            action: "Add acceptance-criterion tests"@,
            commit_plan: "Commit tests for acceptance criteria"@,
            allowed_paths: seq!["tests/**"@, "**/*test*"@, "**/*spec*"@],
            required_validation: seq!["trace"@],
        },
        TemplateV {
            name: "implementation"@,
            description: "Implement runtime or application code for the spec."@,
            action: "Implement required behavior"@,
            commit_plan: "Commit implementation changes"@,
            allowed_paths: seq!["src/**"@, "crates/**"@, "packages/**"@, "apps/**"@],
            required_validation: Seq::empty(),
        },
        TemplateV {
            name: "interface"@,
            description: "Update public interfaces, CLI commands, or API surfaces."@,
            action: "Update interfaces"@,
            commit_plan: "Commit interface changes"@,
            allowed_paths: seq!["crates/*/src/main.rs"@, "src/**"@, "openapi/**"@, "proto/**"@, "docs/**"@],
            required_validation: Seq::empty(),
        },
        TemplateV {
            name: "validation"@,
            description: "Run and record validation evidence."@,
            action: "Run validation commands"@,
            commit_plan: "Commit validation evidence"@,
            allowed_paths: seq![".github/**"@, ".specgraph/validation/**"@, "docs/**"@],
            required_validation: seq!["replay"@, "spec"@, "trace"@, "commit"@],
        },
    ]
}

fn template_0() -> (t: ActionGroupTemplate)
    ensures
        template_view(t) == template_table()[0],
{
    let allowed_paths: &'static [&'static str] = &[".specgraph/**", "specs/**", "docs/**"];
    let required_validation: &'static [&'static str] = &["replay", "spec"];
    let t = ActionGroupTemplate {
        name: "graph",
        description: "Update SpecGraph metadata and projections.",
        action: "Update graph facts and spec projections",
        commit_plan: "Commit graph metadata changes",
        allowed_paths,
        required_validation,
    };
    assert(statics_view(t.allowed_paths@) =~= template_table()[0].allowed_paths);
    assert(statics_view(t.required_validation@) =~= template_table()[0].required_validation);
    t
}

fn template_1() -> (t: ActionGroupTemplate)
    ensures
        template_view(t) == template_table()[1],
{
    let allowed_paths: &'static [&'static str] = &["tests/**", "**/*test*", "**/*spec*"];
    let required_validation: &'static [&'static str] = &["trace"];
    let t = ActionGroupTemplate {
        name: "tests",
        description: "Add or update tests linked to acceptance criteria.",
        action: "Add acceptance-criterion tests",
        commit_plan: "Commit tests for acceptance criteria",
        allowed_paths,
        required_validation,
    };
    assert(statics_view(t.allowed_paths@) =~= template_table()[1].allowed_paths);
    assert(statics_view(t.required_validation@) =~= template_table()[1].required_validation);
    t
}

fn template_2() -> (t: ActionGroupTemplate)
    ensures
        template_view(t) == template_table()[2],
{
    let allowed_paths: &'static [&'static str] = &["src/**", "crates/**", "packages/**", "apps/**"];
    let required_validation: &'static [&'static str] = &[];
    let t = ActionGroupTemplate {
        name: "implementation",
        description: "Implement runtime or application code for the spec.",
        action: "Implement required behavior",
        commit_plan: "Commit implementation changes",
        allowed_paths,
        required_validation,
    };
    assert(statics_view(t.allowed_paths@) =~= template_table()[2].allowed_paths);
    assert(statics_view(t.required_validation@) =~= template_table()[2].required_validation);
    t
}

fn template_3() -> (t: ActionGroupTemplate)
    ensures
        template_view(t) == template_table()[3],
{
    let allowed_paths: &'static [&'static str] = &["crates/*/src/main.rs", "src/**", "openapi/**", "proto/**", "docs/**"];
    let required_validation: &'static [&'static str] = &[];
    let t = ActionGroupTemplate {
        name: "interface",
        description: "Update public interfaces, CLI commands, or API surfaces.",
        action: "Update interfaces",
        commit_plan: "Commit interface changes",
        allowed_paths,
        required_validation,
    };
    assert(statics_view(t.allowed_paths@) =~= template_table()[3].allowed_paths);
    assert(statics_view(t.required_validation@) =~= template_table()[3].required_validation);
    t
}

fn template_4() -> (t: ActionGroupTemplate)
    ensures
        template_view(t) == template_table()[4],
{
    let allowed_paths: &'static [&'static str] = &[".github/**", ".specgraph/validation/**", "docs/**"];
    let required_validation: &'static [&'static str] = &["replay", "spec", "trace", "commit"];
    let t = ActionGroupTemplate {
        name: "validation",
        description: "Run and record validation evidence.",
        action: "Run validation commands",
        commit_plan: "Commit validation evidence",
        allowed_paths,
        required_validation,
    };
    assert(statics_view(t.allowed_paths@) =~= template_table()[4].allowed_paths);
    assert(statics_view(t.required_validation@) =~= template_table()[4].required_validation);
    t
}

/// The action group templates of the default action graph.
pub fn action_group_templates() -> (r: Vec<ActionGroupTemplate>)
    ensures
        r@.map_values(|t: ActionGroupTemplate| template_view(t)) == template_table(),
{
    let mut v: Vec<ActionGroupTemplate> = Vec::new();
    v.push(template_0());
    v.push(template_1());
    v.push(template_2());
    v.push(template_3());
    v.push(template_4());
    assert(v@.map_values(|t: ActionGroupTemplate| template_view(t)) =~= template_table());
    v
}

pub open spec fn group_key(spec: Seq<char>, t: TemplateV) -> Seq<char> {
    spec + "/"@ + t.name
}

pub open spec fn template_nodes(spec: Seq<char>, t: TemplateV) -> Seq<NodeV> {
    let key = group_key(spec, t);
    seq![
        NodeV {
            id: spec_node_id("action_group"@, key),
            stable_key: "action-group:"@ + key,
            node_type: "ActionGroup"@,
            attributes: seq![("description"@, JsonV::Text(t.description)), ("name"@, JsonV::Text(t.name))],
        },
        NodeV {
            id: spec_node_id("action_node"@, key),
            stable_key: "action-node:"@ + key,
            node_type: "ActionNode"@,
            attributes: seq![
                ("allowedPaths"@, JsonV::Array(texts(t.allowed_paths))),
                ("name"@, JsonV::Text(t.action)),
                ("state"@, JsonV::Text("Ready"@)),
            ],
        },
        NodeV {
            id: spec_node_id("commit_plan"@, key),
            stable_key: "commit-plan:"@ + key,
            node_type: "CommitPlan"@,
            attributes: seq![
                ("allowedFiles"@, JsonV::Array(texts(t.allowed_paths))),
                ("category"@, JsonV::Text(t.name)),
                ("expectedGraphDelta"@, JsonV::Bool(t.name == "graph"@)),
                ("name"@, JsonV::Text(t.commit_plan)),
                ("requiredValidation"@, JsonV::Array(texts(t.required_validation))),
                ("state"@, JsonV::Text("Planned"@)),
            ],
        },
    ]
}

pub open spec fn template_edges(spec: Seq<char>, t: TemplateV) -> Seq<EdgeV> {
    let key = group_key(spec, t);
    let ag = spec_node_id("action_graph"@, spec);
    seq![
        spec_edge(ag, "HAS_ACTION_GROUP"@, spec_node_id("action_group"@, key)),
        spec_edge(spec_node_id("action_group"@, key), "HAS_ACTION"@, spec_node_id("action_node"@, key)),
        spec_edge(spec_node_id("action_group"@, key), "HAS_COMMIT_PLAN"@, spec_node_id("commit_plan"@, key)),
    ]
}

pub open spec fn templates_nodes(spec: Seq<char>, ts: Seq<TemplateV>) -> Seq<NodeV>
    decreases ts.len(),
{
    if ts.len() == 0 {
        Seq::empty()
    } else {
        templates_nodes(spec, ts.drop_last()) + template_nodes(spec, ts.last())
    }
}

pub open spec fn templates_edges(spec: Seq<char>, ts: Seq<TemplateV>) -> Seq<EdgeV>
    decreases ts.len(),
{
    if ts.len() == 0 {
        Seq::empty()
    } else {
        templates_edges(spec, ts.drop_last()) + template_edges(spec, ts.last())
    }
}

/// The nodes of a spec's default action graph: the graph, then each group,
/// its action and its commit plan.
pub open spec fn action_graph_nodes(spec: Seq<char>) -> Seq<NodeV> {
    seq![
        NodeV {
            id: spec_node_id("action_graph"@, spec),
            stable_key: "action-graph:"@ + spec,
            node_type: "ActionGraph"@,
            attributes: seq![("spec"@, JsonV::Text(spec)), ("template"@, JsonV::Text("mvp-default"@))],
        },
    ] + templates_nodes(spec, template_table())
}

/// The edges of a spec's default action graph: the spec to the graph, then
/// for each group the graph to it and it to its action and commit plan.
pub open spec fn action_graph_edges(spec: Seq<char>, spec_node: Seq<char>) -> Seq<EdgeV> {
    seq![spec_edge(spec_node, "HAS_ACTION_GRAPH"@, spec_node_id("action_graph"@, spec))] + templates_edges(spec, template_table())
}

fn statics_array(v: &'static [&'static str]) -> (r: JsonValue)
    ensures
        json_view(r) == JsonV::Array(texts(statics_view(v@))),
{
    let mut items: Vec<JsonValue> = Vec::new();
    let mut i: usize = 0;
    while i < v.len()
        invariant
            i <= v@.len(),
            json_seq_view(items@) == texts(statics_view(v@).take(i as int)),
        decreases v@.len() - i,
    {
        let x = JsonValue::Text(String::from_str(v[i]));
        proof {
            lemma_json_seq_push(items@, x);
        }
        items.push(x);
        assert(texts(statics_view(v@).take(i + 1)) =~= texts(statics_view(v@).take(i as int)).push(JsonV::Text(v@[i as int]@)));
        i = i + 1;
    }
    assert(statics_view(v@).take(v@.len() as int) =~= statics_view(v@));
    JsonValue::Array(items)
}

fn template_key(spec: &str, t: &ActionGroupTemplate) -> (r: String)
    ensures
        r@ == group_key(spec@, template_view(*t)),
{
    let mut k = chars_of(spec);
    append_str(&mut k, "/");
    append_str(&mut k, t.name);
    string_of(&k)
}

fn keyed_text(prefix: &str, key: &String) -> (r: String)
    ensures
        r@ == prefix@ + key@,
{
    let mut k = chars_of(prefix);
    append(&mut k, &string_chars(key));
    string_of(&k)
}

fn push_template(nodes: &mut Vec<Node>, edges: &mut Vec<Edge>, spec: &str, ag: &String, t: &ActionGroupTemplate)
    requires
        ag@ == spec_node_id("action_graph"@, spec@),
    ensures
        views(final(nodes)@) == views(old(nodes)@) + template_nodes(spec@, template_view(*t)),
        views(final(edges)@) == views(old(edges)@) + template_edges(spec@, template_view(*t)),
{
    let ghost tv = template_view(*t);
    let key = template_key(spec, t);
    let group_id = node_id("action_group", key.as_str());
    let action_id = node_id("action_node", key.as_str());
    let plan_id = node_id("commit_plan", key.as_str());
    let ghost n0 = views(nodes@);
    let ghost e0 = views(edges@);
    let mut a: Vec<(String, JsonValue)> = Vec::new();
    assert(json_fields_view(a@) =~= Seq::empty());
    push_text(&mut a, "description", t.description);
    push_text(&mut a, "name", t.name);
    assert(json_fields_view(a@) =~= template_nodes(spec@, tv)[0].attributes);
    nodes.push(make_node(group_id.clone(), keyed_text("action-group:", &key), "ActionGroup", a));
    let mut b: Vec<(String, JsonValue)> = Vec::new();
    assert(json_fields_view(b@) =~= Seq::empty());
    push_attr(&mut b, "allowedPaths", statics_array(t.allowed_paths));
    push_text(&mut b, "name", t.action);
    push_text(&mut b, "state", "Ready");
    assert(json_fields_view(b@) =~= template_nodes(spec@, tv)[1].attributes);
    nodes.push(make_node(action_id.clone(), keyed_text("action-node:", &key), "ActionNode", b));
    let mut c: Vec<(String, JsonValue)> = Vec::new();
    assert(json_fields_view(c@) =~= Seq::empty());
    push_attr(&mut c, "allowedFiles", statics_array(t.allowed_paths));
    push_text(&mut c, "category", t.name);
    push_attr(&mut c, "expectedGraphDelta", JsonValue::Bool(str_eq(t.name, "graph")));
    push_text(&mut c, "name", t.commit_plan);
    push_attr(&mut c, "requiredValidation", statics_array(t.required_validation));
    push_text(&mut c, "state", "Planned");
    assert(json_fields_view(c@) =~= template_nodes(spec@, tv)[2].attributes);
    nodes.push(make_node(plan_id.clone(), keyed_text("commit-plan:", &key), "CommitPlan", c));
    edges.push(make_spec_edge(ag.as_str(), "HAS_ACTION_GROUP", group_id.as_str()));
    edges.push(make_spec_edge(group_id.as_str(), "HAS_ACTION", action_id.as_str()));
    edges.push(make_spec_edge(group_id.as_str(), "HAS_COMMIT_PLAN", plan_id.as_str()));
    assert(views(nodes@) =~= n0 + template_nodes(spec@, tv));
    assert(views(edges@) =~= e0 + template_edges(spec@, tv));
}

/// The default action graph of a spec: five action groups (graph, tests,
/// implementation, interface, validation), each with one action and one
/// commit plan, every fact created.
pub fn action_graph_delta(spec: &str, spec_node_id: &str) -> (d: GraphDelta)
    ensures
        views(d.create_nodes@) == action_graph_nodes(spec@),
        views(d.create_edges@) == action_graph_edges(spec@, spec_node_id@),
        d.update_nodes@.len() == 0,
        d.delete_nodes@.len() == 0,
        d.update_edges@.len() == 0,
        d.delete_edges@.len() == 0,
{
    let ag = node_id("action_graph", spec);
    let mut a: Vec<(String, JsonValue)> = Vec::new();
    assert(json_fields_view(a@) =~= Seq::empty());
    push_text(&mut a, "spec", spec);
    push_text(&mut a, "template", "mvp-default");
    assert(json_fields_view(a@) =~= action_graph_nodes(spec@)[0].attributes);
    let mut key = chars_of("action-graph:");
    append(&mut key, &chars_of(spec));
    let mut nodes: Vec<Node> = Vec::new();
    nodes.push(make_node(ag.clone(), string_of(&key), "ActionGraph", a));
    let mut edges: Vec<Edge> = Vec::new();
    edges.push(make_spec_edge(spec_node_id, "HAS_ACTION_GRAPH", ag.as_str()));
    let ghost n0 = views(nodes@);
    let ghost e0 = views(edges@);
    let templates = action_group_templates();
    let ghost tt = template_table();
    let mut i: usize = 0;
    assert(n0 + templates_nodes(spec@, tt.take(0)) =~= n0);
    assert(e0 + templates_edges(spec@, tt.take(0)) =~= e0);
    while i < templates.len()
        invariant
            i <= templates@.len(),
            templates@.map_values(|t: ActionGroupTemplate| template_view(t)) == tt,
            tt == template_table(),
            ag@ == crate::spec::spec_node_id("action_graph"@, spec@),
            views(nodes@) == n0 + templates_nodes(spec@, tt.take(i as int)),
            views(edges@) == e0 + templates_edges(spec@, tt.take(i as int)),
        decreases templates@.len() - i,
    {
        assert(tt[i as int] == template_view(templates@[i as int]));
        push_template(&mut nodes, &mut edges, spec, &ag, &templates[i]);
        assert(tt.take(i + 1).drop_last() =~= tt.take(i as int));
        assert(tt.take(i + 1).last() == tt[i as int]);
        assert(views(nodes@) =~= n0 + templates_nodes(spec@, tt.take(i + 1)));
        assert(views(edges@) =~= e0 + templates_edges(spec@, tt.take(i + 1)));
        i = i + 1;
    }
    assert(tt.take(tt.len() as int) =~= tt);
    assert(views(nodes@) =~= action_graph_nodes(spec@));
    assert(views(edges@) =~= action_graph_edges(spec@, spec_node_id@));
    GraphDelta {
        create_nodes: nodes,
        update_nodes: Vec::new(),
        delete_nodes: Vec::new(),
        create_edges: edges,
        update_edges: Vec::new(),
        delete_edges: Vec::new(),
    }
}

/// The ids of the action group and commit plan that the references name,
/// under the spec's first action graph; `None` where either link is missing.
pub fn find_action_group_and_commit_plan(
    graph: &Graph,
    spec_node_id: &String,
    action_group_ref: &String,
    commit_plan_ref: &String,
) -> (r: Option<(String, String)>)
    ensures
        match first_out(graph.edge_seq(), spec_node_id@, "HAS_ACTION_GRAPH"@) {
            None => r is None,
            Some(age) => match first_target(graph.node_map(), graph.edge_seq(), age.to, "HAS_ACTION_GROUP"@, action_group_ref@) {
                None => r is None,
                Some(g) => match first_target(graph.node_map(), graph.edge_seq(), g.id, "HAS_COMMIT_PLAN"@, commit_plan_ref@) {
                    None => r is None,
                    Some(p) => r matches Some((gi, pi)) && gi@ == g.id && pi@ == p.id,
                },
            },
        },
{
    let age = match find_out(graph, spec_node_id, "HAS_ACTION_GRAPH") {
        Some(e) => e,
        None => return None,
    };
    let group = match find_target(graph, &age.to, "HAS_ACTION_GROUP", action_group_ref) {
        Some(n) => n,
        None => return None,
    };
    let plan = match find_target(graph, &group.id, "HAS_COMMIT_PLAN", commit_plan_ref) {
        Some(n) => n,
        None => return None,
    };
    Some((group.id.clone(), plan.id.clone()))
}

/// The first Spec node (in id order) whose `spec` attribute is `spec`.
pub fn find_spec_node<'a>(graph: &'a Graph, spec: &String) -> (r: Option<&'a Node>)
    ensures
        match r {
            Some(n) => first_spec(graph.node_seq(), spec@) == Some(n@),
            None => first_spec(graph.node_seq(), spec@) is None,
        },
{
    find_spec(graph, spec)
}


// ------------------------------------------------------------ records

pub open spec fn opt_field(key: Seq<char>, value: Option<String>) -> Seq<(Seq<char>, JsonV)> {
    match value {
        Some(v) => seq![(key, JsonV::Text(v@))],
        None => Seq::empty(),
    }
}

fn push_opt_field(attrs: &mut Vec<(String, JsonValue)>, key: &str, value: &Option<String>)
    ensures
        json_fields_view(final(attrs)@) == json_fields_view(old(attrs)@) + opt_field(key@, *value),
{
    let ghost a0 = json_fields_view(attrs@);
    match value {
        Some(v) => {
            push_text(attrs, key, v.as_str());
            assert(json_fields_view(attrs@) =~= a0 + opt_field(key@, *value));
        },
        None => {
            assert(json_fields_view(attrs@) =~= a0 + opt_field(key@, *value));
        },
    }
}

/// The node a name of `kind` records: the store's node id for it, the key
/// `{family}:{name}` and the name.
pub open spec fn named_record(kind: Seq<char>, family: Seq<char>, node_type: Seq<char>, name: Seq<char>) -> NodeV {
    NodeV {
        id: spec_node_id(kind, name),
        stable_key: family + ":"@ + name,
        node_type: node_type,
        attributes: seq![("name"@, JsonV::Text(name))],
    }
}

fn named_record_node(kind: &str, family: &str, node_type: &str, name: &str) -> (n: Node)
    ensures
        n@ == named_record(kind@, family@, node_type@, name@),
{
    let mut a: Vec<(String, JsonValue)> = Vec::new();
    assert(json_fields_view(a@) =~= Seq::empty());
    push_text(&mut a, "name", name);
    let mut key = chars_of(family);
    append_str(&mut key, ":");
    append(&mut key, &chars_of(name));
    assert(json_fields_view(a@) =~= named_record(kind@, family@, node_type@, name@).attributes);
    make_node(node_id(kind, name), string_of(&key), node_type, a)
}

/// The Role node of a role name.
pub fn role_node(role: &str) -> (n: Node)
    ensures
        n@ == named_record("role"@, "role"@, "Role"@, role@),
{
    named_record_node("role", "role", "Role", role)
}

/// The Permission node of a permission name.
pub fn permission_node(permission: &str) -> (n: Node)
    ensures
        n@ == named_record("permission"@, "permission"@, "Permission"@, permission@),
{
    named_record_node("permission", "permission", "Permission", permission)
}

/// The Approval node an approval request records.
pub open spec fn approval_record(o: RecordApprovalOptions) -> NodeV {
    NodeV {
        id: spec_node_id("approval"@, o.approval_id@),
        stable_key: "approval:"@ + o.approval_id@,
        node_type: "Approval"@,
        attributes: seq![
            ("approval"@, JsonV::Text(o.approval@)),
            ("approvalId"@, JsonV::Text(o.approval_id@)),
            ("approvedBy"@, JsonV::Text(o.approved_by@)),
        ] + opt_field("policy"@, o.policy) + opt_field("reason"@, o.reason) + opt_field("scope"@, o.scope),
    }
}

pub fn approval_node(options: &RecordApprovalOptions) -> (n: Node)
    ensures
        n@ == approval_record(*options),
{
    let mut a: Vec<(String, JsonValue)> = Vec::new();
    assert(json_fields_view(a@) =~= Seq::empty());
    push_text(&mut a, "approval", options.approval.as_str());
    push_text(&mut a, "approvalId", options.approval_id.as_str());
    push_text(&mut a, "approvedBy", options.approved_by.as_str());
    push_opt_field(&mut a, "policy", &options.policy);
    push_opt_field(&mut a, "reason", &options.reason);
    push_opt_field(&mut a, "scope", &options.scope);
    let mut key = chars_of("approval:");
    append(&mut key, &string_chars(&options.approval_id));
    assert(json_fields_view(a@) =~= approval_record(*options).attributes);
    make_node(node_id("approval", options.approval_id.as_str()), string_of(&key), "Approval", a)
}

/// The Waiver node a waiver request records.
pub open spec fn waiver_record(o: CreateWaiverOptions) -> NodeV {
    NodeV {
        id: spec_node_id("waiver"@, o.waiver_id@),
        stable_key: "waiver:"@ + o.waiver_id@,
        node_type: "Waiver"@,
        attributes: seq![("approvedBy"@, JsonV::Text(o.approved_by@))] + opt_field("expiresAt"@, o.expires_at) + seq![
            ("policy"@, JsonV::Text(o.policy@)),
            ("reason"@, JsonV::Text(o.reason@)),
        ] + opt_field("scope"@, o.scope) + seq![("waiverId"@, JsonV::Text(o.waiver_id@))],
    }
}

pub fn waiver_node(options: &CreateWaiverOptions) -> (n: Node)
    ensures
        n@ == waiver_record(*options),
{
    let mut a: Vec<(String, JsonValue)> = Vec::new();
    assert(json_fields_view(a@) =~= Seq::empty());
    push_text(&mut a, "approvedBy", options.approved_by.as_str());
    push_opt_field(&mut a, "expiresAt", &options.expires_at);
    push_text(&mut a, "policy", options.policy.as_str());
    push_text(&mut a, "reason", options.reason.as_str());
    push_opt_field(&mut a, "scope", &options.scope);
    push_text(&mut a, "waiverId", options.waiver_id.as_str());
    let mut key = chars_of("waiver:");
    append(&mut key, &string_chars(&options.waiver_id));
    assert(json_fields_view(a@) =~= waiver_record(*options).attributes);
    make_node(node_id("waiver", options.waiver_id.as_str()), string_of(&key), "Waiver", a)
}

/// The first Actor node (in id order) with the key `actor:{actor_id}` or
/// the actor id `actor_id`.
pub open spec fn first_actor(ns: Seq<NodeV>, actor: Seq<char>) -> Option<NodeV>
    decreases ns.len(),
{
    if ns.len() == 0 {
        None
    } else if ns[0].node_type == "Actor"@ && (ns[0].stable_key == "actor:"@ + actor || attr_text(
        ns[0].attributes,
        "actorId"@,
    ) == Some(actor)) {
        Some(ns[0])
    } else {
        first_actor(ns.drop_first(), actor)
    }
}

/// The id of the actor node that `actor_id` names.
pub fn find_actor_node_id(graph: &Graph, actor_id: &str) -> (r: Option<String>)
    ensures
        match first_actor(graph.node_seq(), actor_id@) {
            Some(n) => r matches Some(id) && id@ == n.id,
            None => r is None,
        },
{
    let nodes = graph.nodes();
    let ghost ns = views(nodes@);
    let mut key = chars_of("actor:");
    append(&mut key, &chars_of(actor_id));
    let ac = chars_of(actor_id);
    let mut i: usize = 0;
    assert(ns.skip(0) =~= ns);
    while i < nodes.len()
        invariant
            i <= nodes@.len(),
            ns == views(nodes@),
            ns == graph.node_seq(),
            key@ == "actor:"@ + actor_id@,
            ac@ == actor_id@,
            first_actor(ns, actor_id@) == first_actor(ns.skip(i as int), actor_id@),
        decreases nodes@.len() - i,
    {
        assert(ns.skip(i as int)[0] == ns[i as int]);
        assert(ns[i as int] == nodes@[i as int]@);
        assert(ns.skip(i as int).drop_first() =~= ns.skip(i + 1));
        let n = &nodes[i];
        if eq_str(&string_chars(&n.node_type), "Actor") {
            let by_key = eq_chars(&string_chars(&n.stable_key), &key);
            let by_id = match fields_text(&n.attributes, "actorId") {
                Some(v) => eq_chars(&string_chars(&v), &ac),
                None => false,
            };
            if by_key || by_id {
                return Some(n.id.clone());
            }
        }
        i = i + 1;
    }
    None
}

/// The paths of the CodeFile nodes among `ns` that record one, in order.
pub open spec fn code_file_paths(ns: Seq<NodeV>) -> Seq<Seq<char>>
    decreases ns.len(),
{
    if ns.len() == 0 {
        Seq::empty()
    } else {
        let n = ns.last();
        code_file_paths(ns.drop_last()) + if n.node_type == "CodeFile"@ && attr_text(n.attributes, "path"@) is Some {
            seq![attr_text(n.attributes, "path"@)->Some_0]
        } else {
            Seq::<Seq<char>>::empty()
        }
    }
}

/// The texts of the array an object input holds under `key`.
pub open spec fn input_texts(input: JsonV, key: Seq<char>) -> Seq<Seq<char>> {
    match input {
        JsonV::Object(fs) => match attr_texts(fs, key) {
            Some(t) => t,
            None => Seq::empty(),
        },
        _ => Seq::empty(),
    }
}

/// The files a policy check sees for an operation: the request's
/// `changedFiles` and the paths of the CodeFile nodes it creates or updates,
/// sorted without repeats.
pub open spec fn policy_files(input: JsonV, d: GraphDelta) -> Seq<Seq<char>> {
    sorted_list(
        (input_texts(input, "changedFiles"@) + code_file_paths(views(d.create_nodes@) + views(d.update_nodes@))).to_set(),
    )
}

fn push_code_file_path(paths: &mut Vec<String>, n: &Node, Ghost(ns): Ghost<Seq<NodeV>>, Ghost(i): Ghost<int>)
    requires
        0 <= i < ns.len(),
        ns[i] == n@,
        strings_view(old(paths)@) == code_file_paths(ns.take(i)),
    ensures
        strings_view(final(paths)@) == code_file_paths(ns.take(i + 1)),
{
    assert(ns.take(i + 1).drop_last() =~= ns.take(i));
    assert(ns.take(i + 1).last() == n@);
    if eq_str(&string_chars(&n.node_type), "CodeFile") {
        match fields_text(&n.attributes, "path") {
            Some(p) => {
                let ghost o = strings_view(paths@);
                paths.push(p);
                assert(strings_view(paths@) =~= code_file_paths(ns.take(i + 1)));
            },
            None => {
                assert(strings_view(paths@) =~= code_file_paths(ns.take(i + 1)));
            },
        }
    } else {
        assert(strings_view(paths@) =~= code_file_paths(ns.take(i + 1)));
    }
}

pub fn changed_files_for_policy(request: &OperationRequest, delta: &GraphDelta) -> (r: Vec<String>)
    ensures
        strings_view(r@) == policy_files(json_view(request.input), *delta),
{
    let mut out: Vec<String> = Vec::new();
    let ghost all = input_texts(json_view(request.input), "changedFiles"@) + code_file_paths(
        views(delta.create_nodes@) + views(delta.update_nodes@),
    );
    assert(strings_view(out@).to_set() =~= Set::<Seq<char>>::empty());
    let listed: Vec<String> = match &request.input {
        JsonValue::Object(fs) => {
            assert(json_view(request.input) == JsonV::Object(json_fields_view(fs@)));
            match fields_texts(fs, "changedFiles") {
                Some(t) => t,
                None => Vec::new(),
            }
        },
        _ => Vec::new(),
    };
    assert(strings_view(listed@) == input_texts(json_view(request.input), "changedFiles"@));
    let mut paths: Vec<String> = Vec::new();
    let ghost ns = views(delta.create_nodes@) + views(delta.update_nodes@);
    assert(strings_view(paths@) =~= code_file_paths(ns.take(0)));
    let ghost cn = views(delta.create_nodes@);
    let mut i: usize = 0;
    while i < delta.create_nodes.len()
        invariant
            i <= cn.len(),
            cn == views(delta.create_nodes@),
            ns == cn + views(delta.update_nodes@),
            strings_view(paths@) == code_file_paths(ns.take(i as int)),
        decreases cn.len() - i,
    {
        let n = &delta.create_nodes[i];
        assert(ns[i as int] == n@);
        push_code_file_path(&mut paths, n, Ghost(ns), Ghost(i as int));
        i = i + 1;
    }
    let mut j: usize = 0;
    while j < delta.update_nodes.len()
        invariant
            j <= delta.update_nodes@.len(),
            cn == views(delta.create_nodes@),
            ns == cn + views(delta.update_nodes@),
            strings_view(paths@) == code_file_paths(ns.take(cn.len() + j)),
        decreases delta.update_nodes@.len() - j,
    {
        let n = &delta.update_nodes[j];
        assert(ns[cn.len() + j] == n@);
        push_code_file_path(&mut paths, n, Ghost(ns), Ghost(cn.len() + j));
        j = j + 1;
    }
    assert(ns.take(ns.len() as int) =~= ns);
    let ghost lv = strings_view(listed@);
    let ghost pv = strings_view(paths@);
    let mut k: usize = 0;
    while k < listed.len()
        invariant
            k <= lv.len(),
            lv == strings_view(listed@),
            sorted_strict(strings_view(out@)),
            strings_view(out@).to_set() == lv.take(k as int).to_set(),
        decreases lv.len() - k,
    {
        assert(lv[k as int] == listed@[k as int]@);
        sorted_insert(&mut out, listed[k].clone());
        assert(lv.take(k + 1) =~= lv.take(k as int).push(lv[k as int]));
        proof {
            lv.take(k as int).lemma_push_to_set_commute(lv[k as int]);
        }
        k = k + 1;
    }
    assert(lv.take(lv.len() as int) =~= lv);
    let mut k: usize = 0;
    while k < paths.len()
        invariant
            k <= pv.len(),
            pv == strings_view(paths@),
            lv == strings_view(listed@),
            sorted_strict(strings_view(out@)),
            strings_view(out@).to_set() == (lv + pv.take(k as int)).to_set(),
        decreases pv.len() - k,
    {
        assert(pv[k as int] == paths@[k as int]@);
        sorted_insert(&mut out, paths[k].clone());
        assert(lv + pv.take(k + 1) =~= (lv + pv.take(k as int)).push(pv[k as int]));
        proof {
            (lv + pv.take(k as int)).lemma_push_to_set_commute(pv[k as int]);
        }
        k = k + 1;
    }
    assert(lv + pv.take(pv.len() as int) =~= all);
    proof {
        lemma_sorted_list(strings_view(out@));
    }
    out
}

} // verus!
