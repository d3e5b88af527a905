//! What the store's operations compute from a replayed graph: the delta an
//! operation appends, the reports it answers, and the gates an operation
//! must pass before its event is written.

use crate::git::{
    binding_findings, find_out, first_out, first_spec, first_target, gerr, missing_trailer_findings, parse_commit_trailers,
    trailers_of, trailers_view, validate_commit_binding, CommitValidationInput,
};
use crate::text::{lines, trim, trim_exec};
use crate::policy::{parse_rfc3339, rfc3339_parse};
use crate::test_runner::{decimal_text, duration_json, duration_value, push_decimal};
use crate::module_graph::{first_node_of_type, first_of_type};
use crate::model::{text_array, texts};
use crate::model::{delta_edges, delta_nodes, finding_full, findings_full, findings_view, Finding, FindingSeverity, OperationRequest};
use crate::ontology::{edges_integrity, nodes_integrity, MvpOntology};
use crate::operation_abi::{
    postcondition_findings, precondition_findings, request_findings, validate_operation_postconditions,
    validate_operation_preconditions, validate_operation_request,
};
use crate::policy::{
    builtin_decisions, builtin_findings, decision_view, decisions_view, evaluate_policies_at, now_unix_nanos,
    PolicyCheckInput, PolicyEffect,
};
use crate::store::{TemplateV, changed_files_for_policy, policy_files};
use crate::model::OperationReceipt;
use crate::module_graph::{node_name, node_name_of, sort_by_name, stable_sort_by_name, ByName};
use crate::keyed::{has_key, views, Keyed};
use crate::model::insert_keyed;
use crate::operation_abi::lemma_insert_keyed_dom;
use crate::model::{EdgeV, attr_set, attr_text, fields_text, set_attribute, Graph, GraphDelta, JsonV, JsonValue, NodeV};
use crate::store::{
    action_blockers, action_graph_delta, action_graph_edges, action_graph_nodes, find_spec_node, next_spec_states,
    spec_blockers, spec_state_blockers, spec_successor, SpecStatusSummary, ActionLifecycleOptions, template_table, templates_nodes, templates_edges, group_key, RecordPolicyReportOptions, error_count, policy_error_count, RecordApprovalOptions, CreateWaiverOptions, approval_node, approval_record, waiver_node, waiver_record, find_actor_node_id, first_actor, BindBranchOptions, BranchMetadata, spec_branch_ok, validate_spec_branch_name, action_lifecycle_blockers, ActionGraphSummary, ActionGroupSummary, GrantRoleOptions, named_record, permission_node, role_node,
};
use crate::spec::{make_spec_edge, spec_edge, spec_node_id};
use crate::ids::node_id;
use crate::model::{push_attr, push_text, Edge, Node};
use crate::text::{
    append, append_str, chars_of, contains, contains_str, contains_string, starts_with, starts_with_str, string_chars,
    string_of, strings_view,
};
use vstd::prelude::*;

verus! {

/// Why a store operation was refused.
#[derive(Debug, Clone)]
pub enum StoreError {
    Io { path: String, message: String },
    Json { path: String, message: String },
    Yaml { path: String, message: String },
    AlreadyExists(String),
    NotFound(String),
    SpecNotFound(String),
    InvalidBranchName(String),
    ActionGraphNotFound(String),
    CommitValidationFailed(usize),
    TraceValidationFailed(usize),
    SequenceMismatch { path: String, expected: u64, actual: u64 },
    EventChainMismatch { path: String, expected: Option<String>, actual: Option<String> },
    PreStateHashMismatch { path: String, expected: String, actual: String },
    PostStateHashMismatch { path: String, expected: String, actual: String },
    OntologyValidationFailed(usize),
    OperationValidationFailed(usize),
    PolicyValidationFailed(usize),
    OntologyPackValidationFailed(usize),
    ActorNotFound(String),
    EmptyEvidenceId,
    ApprovalAuthorityFailed(String),
    ProjectNotFound,
    QueryLimitExceeded(String),
}

/// A delta that only updates these nodes.
pub open spec fn updates_only(d: GraphDelta, ns: Seq<NodeV>) -> bool {
    &&& views(d.update_nodes@) == ns
    &&& d.create_nodes@.len() == 0
    &&& d.delete_nodes@.len() == 0
    &&& d.create_edges@.len() == 0
    &&& d.update_edges@.len() == 0
    &&& d.delete_edges@.len() == 0
}

/// The lifecycle state a Spec node records, `Draft` where it records none.
pub open spec fn recorded_state(n: NodeV) -> Seq<char> {
    match attr_text(n.attributes, "state"@) {
        Some(s) => s,
        None => "Draft"@,
    }
}

/// The states that may follow `state`.
pub open spec fn next_states(state: Seq<char>) -> Seq<Seq<char>> {
    match spec_successor(state) {
        Some(t) => seq![t],
        None => Seq::empty(),
    }
}

/// What blocks each state that may follow `state`.
pub open spec fn next_blockers(
    nm: Map<Seq<char>, NodeV>,
    ns: Seq<NodeV>,
    es: Seq<crate::model::EdgeV>,
    id: Seq<char>,
    state: Seq<char>,
) -> Seq<Seq<char>> {
    match spec_successor(state) {
        Some(t) => spec_blockers(nm, ns, es, id, t),
        None => Seq::empty(),
    }
}

/// `n` with its `state` attribute set to `state`.
pub open spec fn with_state(n: NodeV, state: Seq<char>) -> NodeV {
    NodeV { attributes: attr_set(n.attributes, "state"@, JsonV::Text(state)), ..n }
}

/// Where a spec stands: its recorded state, the state that may follow, and
/// what blocks that move. A spec that no Spec node records is refused.
pub fn spec_status_summary(graph: &Graph, spec: &String) -> (r: Result<SpecStatusSummary, StoreError>)
    ensures
        match first_spec(graph.node_seq(), spec@) {
            None => r matches Err(StoreError::SpecNotFound(s)) && s@ == spec@,
            Some(n) => r matches Ok(sum) && sum.spec@ == spec@ && sum.state@ == recorded_state(n) && strings_view(
                sum.next_states@,
            ) == next_states(recorded_state(n)) && strings_view(sum.blockers@) == next_blockers(
                graph.node_map(),
                graph.node_seq(),
                graph.edge_seq(),
                n.id,
                recorded_state(n),
            ),
        },
{
    let n = match find_spec_node(graph, spec) {
        Some(n) => n,
        None => return Err(StoreError::SpecNotFound(spec.clone())),
    };
    let state = match fields_text(&n.attributes, "state") {
        Some(s) => s,
        None => String::from_str("Draft"),
    };
    let next = next_spec_states(state.as_str());
    let mut next_states_out: Vec<String> = Vec::new();
    let mut blockers: Vec<String> = Vec::new();
    assert(strings_view(blockers@) =~= Seq::<Seq<char>>::empty());
    if next.len() > 0 {
        let t = next[0];
        assert(crate::store::statics_view(next@)[0] == t@);
        next_states_out.push(String::from_str(t));
        blockers = spec_state_blockers(graph, &n.id, t);
    }
    assert(strings_view(next_states_out@) =~= next_states(state@));
    assert(strings_view(blockers@) == next_blockers(graph.node_map(), graph.node_seq(), graph.edge_seq(), n.id@, state@));
    Ok(SpecStatusSummary { spec: spec.clone(), state, blockers, next_states: next_states_out })
}

/// The delta that moves a spec to `state`: its node, updated with the new
/// state. Refused where no Spec node records the spec, or where the move is
/// blocked (with the number of blockers).
pub fn spec_transition_delta(graph: &Graph, spec: &String, state: &String) -> (r: Result<GraphDelta, StoreError>)
    ensures
        match first_spec(graph.node_seq(), spec@) {
            None => r matches Err(StoreError::SpecNotFound(s)) && s@ == spec@,
            Some(n) => {
                let b = spec_blockers(graph.node_map(), graph.node_seq(), graph.edge_seq(), n.id, state@);
                if b.len() > 0 {
                    r matches Err(StoreError::OperationValidationFailed(c)) && c == b.len()
                } else {
                    r matches Ok(d) && updates_only(d, seq![with_state(n, state@)])
                }
            },
        },
{
    let n = match find_spec_node(graph, spec) {
        Some(n) => n,
        None => return Err(StoreError::SpecNotFound(spec.clone())),
    };
    let blockers = spec_state_blockers(graph, &n.id, state.as_str());
    if blockers.len() > 0 {
        return Err(StoreError::OperationValidationFailed(blockers.len()));
    }
    let mut updated = n.duplicate();
    set_attribute(&mut updated.attributes, "state", JsonValue::Text(state.clone()));
    let mut d = GraphDelta::empty();
    d.update_nodes.push(updated);
    assert(views(d.update_nodes@) =~= seq![with_state(n@, state@)]);
    Ok(d)
}

/// The delta that gives a spec its action graph (see `action_graph_delta`).
/// Refused where no Spec node records the spec.
pub fn generate_action_graph_delta(graph: &Graph, spec: &String) -> (r: Result<GraphDelta, StoreError>)
    ensures
        match first_spec(graph.node_seq(), spec@) {
            None => r matches Err(StoreError::SpecNotFound(s)) && s@ == spec@,
            Some(n) => r matches Ok(d) && views(d.create_nodes@) == action_graph_nodes(spec@) && views(
                d.create_edges@,
            ) == action_graph_edges(spec@, n.id) && d.update_nodes@.len() == 0 && d.delete_nodes@.len() == 0
                && d.update_edges@.len() == 0 && d.delete_edges@.len() == 0,
        },
{
    match find_spec_node(graph, spec) {
        Some(n) => Ok(action_graph_delta(spec.as_str(), n.id.as_str())),
        None => Err(StoreError::SpecNotFound(spec.clone())),
    }
}


/// What an approver is asked to do with policy evidence.
#[derive(Debug, Clone, Copy, PartialEq, Eq, Structural)]
pub enum ApprovalAuthorityAction {
    Approve,
    Waive,
}

/// Evidence about data migrations: the migration-approval policy, or a
/// scope under a `migrations/` directory.
pub open spec fn is_data_migration(policy: Option<Seq<char>>, scope: Option<Seq<char>>) -> bool {
    policy == Some("policy.data.migration_approval"@) || match scope {
        Some(s) => starts_with(s, "migrations/"@) || contains(s, "/migrations/"@),
        None => false,
    }
}

/// Whether roles and permissions let an actor approve or waive policy
/// evidence: admins and maintainers always may; otherwise the action's own
/// role (`approver`, `waiver-approver`) or permission (`policy.approve`,
/// `policy.approve:<policy>`, and the `waive` forms), and for data
/// migrations also `data-approver` and the data-migration permissions.
pub open spec fn authority(
    roles: Seq<Seq<char>>,
    perms: Seq<Seq<char>>,
    policy: Option<Seq<char>>,
    scope: Option<Seq<char>>,
    action: ApprovalAuthorityAction,
) -> bool {
    let dm = is_data_migration(policy, scope);
    let verb: Seq<char> = match action {
        ApprovalAuthorityAction::Approve => "approve"@,
        ApprovalAuthorityAction::Waive => "waive"@,
    };
    let role: Seq<char> = match action {
        ApprovalAuthorityAction::Approve => "approver"@,
        ApprovalAuthorityAction::Waive => "waiver-approver"@,
    };
    ||| roles.contains("admin"@)
    ||| roles.contains("maintainer"@)
    ||| roles.contains(role)
    ||| (dm && roles.contains("data-approver"@))
    ||| perms.contains("policy."@ + verb)
    ||| (policy is Some && perms.contains("policy."@ + verb + ":"@ + policy->0))
    ||| (dm && (perms.contains("policy."@ + verb + ".data-migration"@) || perms.contains(
        "policy.data.migration_approval."@ + verb,
    )))
}

pub open spec fn opt_view(o: Option<String>) -> Option<Seq<char>> {
    match o {
        Some(s) => Some(s@),
        None => None,
    }
}

fn verb_of(action: ApprovalAuthorityAction) -> (r: &'static str)
    ensures
        r@ == match action {
            ApprovalAuthorityAction::Approve => "approve"@,
            ApprovalAuthorityAction::Waive => "waive"@,
        },
{
    match action {
        ApprovalAuthorityAction::Approve => "approve",
        ApprovalAuthorityAction::Waive => "waive",
    }
}

/// Whether an actor with these roles and permissions may approve or waive
/// the evidence (see `authority`).
pub fn has_approval_authority(
    roles: &Vec<String>,
    permissions: &Vec<String>,
    policy: &Option<String>,
    scope: &Option<String>,
    action: ApprovalAuthorityAction,
) -> (r: bool)
    ensures
        r == authority(strings_view(roles@), strings_view(permissions@), opt_view(*policy), opt_view(*scope), action),
{
    let dm = match policy {
        Some(p) => {
            let pc = string_chars(p);
            crate::text::eq_str(&pc, "policy.data.migration_approval")
        },
        None => false,
    } || match scope {
        Some(s) => {
            let sc = string_chars(s);
            starts_with_str(&sc, "migrations/") || contains_str(&sc, "/migrations/")
        },
        None => false,
    };
    assert(dm == is_data_migration(opt_view(*policy), opt_view(*scope)));
    let verb = verb_of(action);
    let role = match action {
        ApprovalAuthorityAction::Approve => "approver",
        ApprovalAuthorityAction::Waive => "waiver-approver",
    };
    let mut plain = chars_of("policy.");
    append_str(&mut plain, verb);
    let plain_s = string_of(&plain);
    let mut dm_perm = plain.clone();
    append_str(&mut dm_perm, ".data-migration");
    let dm_perm_s = string_of(&dm_perm);
    let mut dm_policy = chars_of("policy.data.migration_approval.");
    append_str(&mut dm_policy, verb);
    let dm_policy_s = string_of(&dm_policy);
    let for_policy = match policy {
        Some(p) => {
            let mut c = plain.clone();
            append_str(&mut c, ":");
            append(&mut c, &string_chars(p));
            let cs = string_of(&c);
            contains_string(permissions, cs.as_str())
        },
        None => false,
    };
    contains_string(roles, "admin") || contains_string(roles, "maintainer") || contains_string(roles, role) || (dm
        && contains_string(roles, "data-approver")) || contains_string(permissions, plain_s.as_str()) || for_policy || (
    dm && (contains_string(permissions, dm_perm_s.as_str()) || contains_string(permissions, dm_policy_s.as_str())))
}

/// Why authority was refused: ``actor `<who>` lacks authority to <verb>
/// policy evidence``, with `` for `<policy>` `` where one is named.
pub open spec fn authority_message(who: Seq<char>, policy: Option<Seq<char>>, action: ApprovalAuthorityAction) -> Seq<
    char,
> {
    "actor `"@ + who + "` lacks authority to "@ + match action {
        ApprovalAuthorityAction::Approve => "approve"@,
        ApprovalAuthorityAction::Waive => "waive"@,
    } + " policy evidence"@ + match policy {
        Some(p) => " for `"@ + p + "`"@,
        None => Seq::empty(),
    }
}

/// Succeeds where the actor has authority (see `authority`); else refuses
/// with the message of `authority_message`.
pub fn ensure_approval_authority(
    roles: &Vec<String>,
    permissions: &Vec<String>,
    approved_by: &str,
    policy: &Option<String>,
    scope: &Option<String>,
    action: ApprovalAuthorityAction,
) -> (r: Result<(), StoreError>)
    ensures
        authority(strings_view(roles@), strings_view(permissions@), opt_view(*policy), opt_view(*scope), action)
            ==> r is Ok,
        !authority(strings_view(roles@), strings_view(permissions@), opt_view(*policy), opt_view(*scope), action)
            ==> (r matches Err(StoreError::ApprovalAuthorityFailed(m)) && m@ == authority_message(
            approved_by@,
            opt_view(*policy),
            action,
        )),
{
    if has_approval_authority(roles, permissions, policy, scope, action) {
        return Ok(());
    }
    let mut m = chars_of("actor `");
    append_str(&mut m, approved_by);
    append_str(&mut m, "` lacks authority to ");
    append_str(&mut m, verb_of(action));
    append_str(&mut m, " policy evidence");
    match policy {
        Some(p) => {
            append_str(&mut m, " for `");
            append(&mut m, &string_chars(p));
            append_str(&mut m, "`");
        },
        None => {},
    }
    assert(m@ =~= authority_message(approved_by@, opt_view(*policy), action));
    Err(StoreError::ApprovalAuthorityFailed(string_of(&m)))
}


// ------------------------------------------------------------ action graph listing

pub struct ActionGroupSummaryV {
    pub id: Seq<char>,
    pub name: Seq<char>,
    pub action_count: nat,
    pub commit_plan_count: nat,
}

impl View for ActionGroupSummary {
    type V = ActionGroupSummaryV;

    open spec fn view(&self) -> ActionGroupSummaryV {
        ActionGroupSummaryV {
            id: self.id@,
            name: self.name@,
            action_count: self.action_count as nat,
            commit_plan_count: self.commit_plan_count as nat,
        }
    }
}

impl ByName for ActionGroupSummary {
    open spec fn view_name(v: ActionGroupSummaryV) -> Seq<char> {
        v.name
    }

    fn name_ref(&self) -> (r: &String) {
        &self.name
    }
}

/// How many edges of type `et` leave `from`.
pub open spec fn count_out(es: Seq<EdgeV>, from: Seq<char>, et: Seq<char>) -> nat
    decreases es.len(),
{
    if es.len() == 0 {
        0
    } else {
        count_out(es.drop_last(), from, et) + if es.last().from == from && es.last().edge_type == et {
            1nat
        } else {
            0nat
        }
    }
}

/// The summary of one action group node: its name (or id), and how many
/// actions and commit plans it holds.
pub open spec fn group_row(n: NodeV, all: Seq<EdgeV>) -> ActionGroupSummaryV {
    ActionGroupSummaryV {
        id: n.id,
        name: node_name(n),
        action_count: count_out(all, n.id, "HAS_ACTION"@),
        commit_plan_count: count_out(all, n.id, "HAS_COMMIT_PLAN"@),
    }
}

/// The summaries of the groups that `HAS_ACTION_GROUP` edges among `es` lead
/// to from `ag`, in edge order; edges to missing nodes are passed over.
pub open spec fn group_rows(nm: Map<Seq<char>, NodeV>, all: Seq<EdgeV>, es: Seq<EdgeV>, ag: Seq<char>) -> Seq<
    ActionGroupSummaryV,
>
    decreases es.len(),
{
    if es.len() == 0 {
        Seq::empty()
    } else {
        let e = es.last();
        group_rows(nm, all, es.drop_last(), ag) + if e.from == ag && e.edge_type == "HAS_ACTION_GROUP"@
            && nm.contains_key(e.to) {
            seq![group_row(nm[e.to], all)]
        } else {
            Seq::empty()
        }
    }
}

fn count_out_exec(graph: &Graph, from: &String, et: &str) -> (r: usize)
    ensures
        r == count_out(graph.edge_seq(), from@, et@),
{
    let edges = graph.edges();
    let ghost es = views(edges@);
    let fc = string_chars(from);
    let mut c: usize = 0;
    let mut i: usize = 0;
    while i < edges.len()
        invariant
            i <= edges@.len(),
            es == views(edges@),
            es == graph.edge_seq(),
            fc@ == from@,
            c == count_out(es.take(i as int), from@, et@),
            c <= i,
        decreases edges@.len() - i,
    {
        let e = &edges[i];
        assert(es[i as int] == e@);
        assert(es.take(i + 1).drop_last() =~= es.take(i as int));
        assert(es.take(i + 1).last() == e@);
        if crate::text::eq_chars(&string_chars(&e.from), &fc) && crate::text::eq_str(&string_chars(&e.edge_type), et) {
            c = c + 1;
        }
        i = i + 1;
    }
    assert(es.take(es.len() as int) =~= es);
    c
}

/// The action graph of a spec: its id and its groups, sorted by name (groups
/// of one name kept in edge order). Refused where no Spec node records the
/// spec, or where the spec has no action graph.
pub fn action_graph_summary(graph: &Graph, spec: &String) -> (r: Result<ActionGraphSummary, StoreError>)
    ensures
        match first_spec(graph.node_seq(), spec@) {
            None => r matches Err(StoreError::SpecNotFound(s)) && s@ == spec@,
            Some(n) => match first_out(graph.edge_seq(), n.id, "HAS_ACTION_GRAPH"@) {
                None => r matches Err(StoreError::ActionGraphNotFound(s)) && s@ == spec@,
                Some(age) => r matches Ok(sum) && sum.spec@ == spec@ && sum.action_graph_id@ == age.to && views(
                    sum.groups@,
                ) == sort_by_name::<ActionGroupSummary>(
                    group_rows(graph.node_map(), graph.edge_seq(), graph.edge_seq(), age.to),
                ),
            },
        },
{
    let n = match find_spec_node(graph, spec) {
        Some(n) => n,
        None => return Err(StoreError::SpecNotFound(spec.clone())),
    };
    let age = match find_out(graph, &n.id, "HAS_ACTION_GRAPH") {
        Some(e) => e,
        None => return Err(StoreError::ActionGraphNotFound(spec.clone())),
    };
    let ag = age.to.clone();
    let agc = string_chars(&ag);
    let edges = graph.edges();
    let ghost es = views(edges@);
    let ghost nm = graph.node_map();
    let mut rows: Vec<ActionGroupSummary> = Vec::new();
    let mut i: usize = 0;
    assert(views(rows@) =~= group_rows(nm, es, es.take(0), ag@));
    while i < edges.len()
        invariant
            i <= edges@.len(),
            es == views(edges@),
            es == graph.edge_seq(),
            nm == graph.node_map(),
            agc@ == ag@,
            views(rows@) == group_rows(nm, es, es.take(i as int), ag@),
        decreases edges@.len() - i,
    {
        let e = &edges[i];
        assert(es[i as int] == e@);
        assert(es.take(i + 1).drop_last() =~= es.take(i as int));
        assert(es.take(i + 1).last() == e@);
        let ghost before = views(rows@);
        if crate::text::eq_chars(&string_chars(&e.from), &agc) && crate::text::eq_str(
            &string_chars(&e.edge_type),
            "HAS_ACTION_GROUP",
        ) {
            match graph.node(e.to.as_str()) {
                Some(g) => {
                    let row = ActionGroupSummary {
                        id: g.id.clone(),
                        name: node_name_of(g),
                        action_count: count_out_exec(graph, &g.id, "HAS_ACTION"),
                        commit_plan_count: count_out_exec(graph, &g.id, "HAS_COMMIT_PLAN"),
                    };
                    rows.push(row);
                    assert(views(rows@) =~= before + seq![group_row(nm[e.to@], es)]);
                },
                None => {
                    assert(views(rows@) =~= before + Seq::<ActionGroupSummaryV>::empty());
                },
            }
        } else {
            assert(views(rows@) =~= before + Seq::<ActionGroupSummaryV>::empty());
        }
        i = i + 1;
    }
    assert(es.take(es.len() as int) =~= es);
    let groups = stable_sort_by_name(rows);
    Ok(ActionGraphSummary { spec: spec.clone(), action_graph_id: ag, groups })
}


// ------------------------------------------------------------ identity

pub open spec fn node_ids(ns: Seq<NodeV>) -> Seq<Seq<char>> {
    ns.map_values(|n: NodeV| n.id)
}

pub open spec fn edge_ids(es: Seq<EdgeV>) -> Seq<Seq<char>> {
    es.map_values(|e: EdgeV| e.id)
}

fn has_node_id(v: &Vec<Node>, id: &String) -> (r: bool)
    ensures
        r == node_ids(views(v@)).contains(id@),
{
    let ic = string_chars(id);
    let mut i: usize = 0;
    while i < v.len()
        invariant
            i <= v@.len(),
            ic@ == id@,
            forall|k: int| 0 <= k < i ==> v@[k].id@ != id@,
        decreases v@.len() - i,
    {
        if crate::text::eq_chars(&string_chars(&v[i].id), &ic) {
            assert(node_ids(views(v@))[i as int] == id@);
            return true;
        }
        i = i + 1;
    }
    assert forall|k: int| 0 <= k < node_ids(views(v@)).len() implies node_ids(views(v@))[k] != id@ by {
        assert(node_ids(views(v@))[k] == v@[k].id@);
    }
    false
}

fn has_edge_id(v: &Vec<Edge>, id: &String) -> (r: bool)
    ensures
        r == edge_ids(views(v@)).contains(id@),
{
    let ic = string_chars(id);
    let mut i: usize = 0;
    while i < v.len()
        invariant
            i <= v@.len(),
            ic@ == id@,
            forall|k: int| 0 <= k < i ==> v@[k].id@ != id@,
        decreases v@.len() - i,
    {
        if crate::text::eq_chars(&string_chars(&v[i].id), &ic) {
            assert(edge_ids(views(v@))[i as int] == id@);
            return true;
        }
        i = i + 1;
    }
    assert forall|k: int| 0 <= k < edge_ids(views(v@)).len() implies edge_ids(views(v@))[k] != id@ by {
        assert(edge_ids(views(v@))[k] == v@[k].id@);
    }
    false
}

/// The nodes and edges a role grant adds after the role itself: for each
/// permission in order, its node and its `GRANTS_PERMISSION` edge, each
/// unless the graph or what was added before already has its id.
pub open spec fn grant_additions(
    nm: Map<Seq<char>, NodeV>,
    em: Map<Seq<char>, EdgeV>,
    role: Seq<char>,
    perms: Seq<Seq<char>>,
    n0: Seq<NodeV>,
    e0: Seq<EdgeV>,
) -> (Seq<NodeV>, Seq<EdgeV>)
    decreases perms.len(),
{
    if perms.len() == 0 {
        (n0, e0)
    } else {
        let (ns, es) = grant_additions(nm, em, role, perms.drop_last(), n0, e0);
        let p = perms.last();
        let pid = spec_node_id("permission"@, p);
        let pe = spec_edge(spec_node_id("role"@, role), "GRANTS_PERMISSION"@, pid);
        (
            if !nm.contains_key(pid) && !node_ids(ns).contains(pid) {
                ns.push(named_record("permission"@, "permission"@, "Permission"@, p))
            } else {
                ns
            },
            if !em.contains_key(pe.id) && !edge_ids(es).contains(pe.id) {
                es.push(pe)
            } else {
                es
            },
        )
    }
}

/// What granting `role` to an actor creates: the Role node and the actor's
/// `HAS_ROLE` edge where the graph lacks them, then each permission's node
/// and edge (see `grant_additions`).
pub open spec fn grant_delta(
    nm: Map<Seq<char>, NodeV>,
    em: Map<Seq<char>, EdgeV>,
    actor: Seq<char>,
    role: Seq<char>,
    perms: Seq<Seq<char>>,
) -> (Seq<NodeV>, Seq<EdgeV>) {
    let rid = spec_node_id("role"@, role);
    let re = spec_edge(spec_node_id("actor"@, actor), "HAS_ROLE"@, rid);
    grant_additions(
        nm,
        em,
        role,
        perms,
        if nm.contains_key(rid) {
            Seq::empty()
        } else {
            seq![named_record("role"@, "role"@, "Role"@, role)]
        },
        if em.contains_key(re.id) {
            Seq::empty()
        } else {
            seq![re]
        },
    )
}

/// A delta that only creates these nodes and edges.
pub open spec fn creates_only(d: GraphDelta, ns: Seq<NodeV>, es: Seq<EdgeV>) -> bool {
    &&& views(d.create_nodes@) == ns
    &&& views(d.create_edges@) == es
    &&& d.update_nodes@.len() == 0
    &&& d.delete_nodes@.len() == 0
    &&& d.update_edges@.len() == 0
    &&& d.delete_edges@.len() == 0
}

/// The delta that grants a role (see `grant_delta`). Refused where the
/// actor's node is not in the graph.
pub fn grant_role_delta(graph: &Graph, options: &GrantRoleOptions) -> (r: Result<GraphDelta, StoreError>)
    ensures
        !graph.node_map().contains_key(spec_node_id("actor"@, options.actor_id@)) ==> (r matches Err(
            StoreError::ActorNotFound(a),
        ) && a@ == options.actor_id@),
        graph.node_map().contains_key(spec_node_id("actor"@, options.actor_id@)) ==> (r matches Ok(d) && creates_only(
            d,
            grant_delta(graph.node_map(), graph.edge_map(), options.actor_id@, options.role@, strings_view(options.permissions@)).0,
            grant_delta(graph.node_map(), graph.edge_map(), options.actor_id@, options.role@, strings_view(options.permissions@)).1,
        )),
{
    let actor_id = node_id("actor", options.actor_id.as_str());
    if graph.node(actor_id.as_str()).is_none() {
        return Err(StoreError::ActorNotFound(options.actor_id.clone()));
    }
    let ghost nm = graph.node_map();
    let ghost em = graph.edge_map();
    let role_id = node_id("role", options.role.as_str());
    let mut nodes: Vec<Node> = Vec::new();
    let mut edges: Vec<Edge> = Vec::new();
    if graph.node(role_id.as_str()).is_none() {
        nodes.push(role_node(options.role.as_str()));
    }
    let role_edge = make_spec_edge(actor_id.as_str(), "HAS_ROLE", role_id.as_str());
    if graph.edge(role_edge.id.as_str()).is_none() {
        edges.push(role_edge);
    }
    let ghost g0 = grant_delta(nm, em, options.actor_id@, options.role@, Seq::empty());
    assert(views(nodes@) =~= g0.0);
    assert(views(edges@) =~= g0.1);
    let ghost ps = strings_view(options.permissions@);
    let mut i: usize = 0;
    while i < options.permissions.len()
        invariant
            i <= ps.len(),
            ps == strings_view(options.permissions@),
            nm == graph.node_map(),
            em == graph.edge_map(),
            role_id@ == spec_node_id("role"@, options.role@),
            (views(nodes@), views(edges@)) == grant_delta(nm, em, options.actor_id@, options.role@, ps.take(i as int)),
        decreases ps.len() - i,
    {
        let p = &options.permissions[i];
        assert(ps[i as int] == p@);
        assert(ps.take(i + 1).drop_last() =~= ps.take(i as int));
        assert(ps.take(i + 1).last() == p@);
        let pid = node_id("permission", p.as_str());
        if graph.node(pid.as_str()).is_none() && !has_node_id(&nodes, &pid) {
            nodes.push(permission_node(p.as_str()));
        }
        let pe = make_spec_edge(role_id.as_str(), "GRANTS_PERMISSION", pid.as_str());
        if graph.edge(pe.id.as_str()).is_none() && !has_edge_id(&edges, &pe.id) {
            edges.push(pe);
        }
        i = i + 1;
    }
    assert(ps.take(ps.len() as int) =~= ps);
    let mut d = GraphDelta::empty();
    d.create_nodes = nodes;
    d.create_edges = edges;
    Ok(d)
}


// ------------------------------------------------------------ action lifecycle

/// The first ActionNode (in id order) named `action`.
pub open spec fn first_named_action(ns: Seq<NodeV>, action: Seq<char>) -> Option<NodeV>
    decreases ns.len(),
{
    if ns.len() == 0 {
        None
    } else if ns[0].node_type == "ActionNode"@ && attr_text(ns[0].attributes, "name"@) == Some(action) {
        Some(ns[0])
    } else {
        first_named_action(ns.drop_first(), action)
    }
}

/// The action a reference names: the node with that id, else the first
/// ActionNode with that name.
pub open spec fn action_target(nm: Map<Seq<char>, NodeV>, ns: Seq<NodeV>, action: Seq<char>) -> Option<NodeV> {
    if nm.contains_key(action) {
        Some(nm[action])
    } else {
        first_named_action(ns, action)
    }
}

/// The action node a reference names (see `action_target`).
pub fn find_action_node<'a>(graph: &'a Graph, action: &String) -> (r: Option<&'a Node>)
    ensures
        match r {
            Some(n) => action_target(graph.node_map(), graph.node_seq(), action@) == Some(n@),
            None => action_target(graph.node_map(), graph.node_seq(), action@) is None,
        },
{
    match graph.node(action.as_str()) {
        Some(n) => return Some(n),
        None => {},
    }
    let nodes = graph.nodes();
    let ghost ns = views(nodes@);
    let ac = string_chars(action);
    let mut i: usize = 0;
    assert(ns.skip(0) =~= ns);
    while i < nodes.len()
        invariant
            i <= nodes@.len(),
            ns == views(nodes@),
            ns == graph.node_seq(),
            ac@ == action@,
            !graph.node_map().contains_key(action@),
            first_named_action(ns, action@) == first_named_action(ns.skip(i as int), action@),
        decreases nodes@.len() - i,
    {
        assert(ns.skip(i as int)[0] == ns[i as int]);
        assert(ns[i as int] == nodes@[i as int]@);
        assert(ns.skip(i as int).drop_first() =~= ns.skip(i + 1));
        let n = &nodes[i];
        if crate::text::eq_str(&string_chars(&n.node_type), "ActionNode") {
            let hit = match fields_text(&n.attributes, "name") {
                Some(v) => crate::text::eq_chars(&string_chars(&v), &ac),
                None => false,
            };
            if hit {
                return Some(n);
            }
        }
        i = i + 1;
    }
    None
}

/// The ExecutionAttempt node that records a move of `action` to `target`;
/// `token` makes its id unique.
pub open spec fn attempt_record(
    action: NodeV,
    target: Seq<char>,
    operation: Seq<char>,
    reason: Option<Seq<char>>,
    token: Seq<char>,
) -> NodeV {
    NodeV {
        id: spec_node_id("execution_attempt"@, action.id + "/"@ + token),
        stable_key: "execution-attempt:"@ + action.id + "/"@ + target,
        node_type: "ExecutionAttempt"@,
        attributes: seq![
            ("action"@, JsonV::Text(action.id)),
            ("operation"@, JsonV::Text(operation)),
            (
                "reason"@,
                JsonV::Text(
                    match reason {
                        Some(r) => r,
                        None => Seq::empty(),
                    },
                ),
            ),
            ("state"@, JsonV::Text(target)),
        ],
    }
}

/// The action node after the move: its state set, and its reason where one
/// is given.
pub open spec fn moved_action(action: NodeV, target: Seq<char>, reason: Option<Seq<char>>) -> NodeV {
    let a = attr_set(action.attributes, "state"@, JsonV::Text(target));
    NodeV {
        attributes: match reason {
            Some(r) => attr_set(a, "reason"@, JsonV::Text(r)),
            None => a,
        },
        ..action
    }
}

/// The delta of an action move: the attempt created, the action updated,
/// and the `HAS_EXECUTION_ATTEMPT` edge between them.
pub open spec fn is_action_move(
    d: GraphDelta,
    action: NodeV,
    target: Seq<char>,
    operation: Seq<char>,
    reason: Option<Seq<char>>,
    token: Seq<char>,
) -> bool {
    let at = attempt_record(action, target, operation, reason, token);
    &&& views(d.create_nodes@) == seq![at]
    &&& views(d.update_nodes@) == seq![moved_action(action, target, reason)]
    &&& views(d.create_edges@) == seq![spec_edge(action.id, "HAS_EXECUTION_ATTEMPT"@, at.id)]
    &&& d.delete_nodes@.len() == 0
    &&& d.update_edges@.len() == 0
    &&& d.delete_edges@.len() == 0
}

/// The delta that moves an action to `target_state` under `operation`, its
/// attempt told apart by `token`. Refused where the reference names no
/// action, or where the move is blocked (with the number of blockers).
pub fn action_transition_delta(
    graph: &Graph,
    action: &String,
    reason: &Option<String>,
    operation: &str,
    target_state: &str,
    token: &str,
) -> (r: Result<GraphDelta, StoreError>)
    ensures
        match action_target(graph.node_map(), graph.node_seq(), action@) {
            None => r matches Err(StoreError::ActionGraphNotFound(a)) && a@ == action@,
            Some(n) => {
                let b = action_blockers(graph.node_map(), graph.node_seq(), graph.edge_seq(), n.id, target_state@);
                if b.len() > 0 {
                    r matches Err(StoreError::OperationValidationFailed(c)) && c == b.len()
                } else {
                    r matches Ok(d) && is_action_move(d, n, target_state@, operation@, opt_view(*reason), token@)
                }
            },
        },
{
    let n = match find_action_node(graph, action) {
        Some(n) => n,
        None => return Err(StoreError::ActionGraphNotFound(action.clone())),
    };
    let blockers = action_lifecycle_blockers(graph, &n.id, target_state);
    if blockers.len() > 0 {
        return Err(StoreError::OperationValidationFailed(blockers.len()));
    }
    let mut updated = n.duplicate();
    set_attribute(&mut updated.attributes, "state", JsonValue::Text(String::from_str(target_state)));
    match reason {
        Some(rs) => set_attribute(&mut updated.attributes, "reason", JsonValue::Text(rs.clone())),
        None => {},
    }
    let mut tail = string_chars(&n.id);
    append_str(&mut tail, "/");
    append_str(&mut tail, token);
    let tail_s = string_of(&tail);
    let attempt_id = node_id("execution_attempt", tail_s.as_str());
    let mut key = chars_of("execution-attempt:");
    append(&mut key, &string_chars(&n.id));
    append_str(&mut key, "/");
    append_str(&mut key, target_state);
    let mut attrs: Vec<(String, JsonValue)> = Vec::new();
    assert(crate::model::json_fields_view(attrs@) =~= Seq::empty());
    push_text(&mut attrs, "action", n.id.as_str());
    push_text(&mut attrs, "operation", operation);
    match reason {
        Some(rs) => {
            push_text(&mut attrs, "reason", rs.as_str());
            assert(opt_view(*reason) == Some(rs@));
        },
        None => {
            proof {
                reveal_strlit("");
            }
            push_text(&mut attrs, "reason", "");
            assert(""@ =~= Seq::<char>::empty());
        },
    }
    let ghost rv: Seq<char> = match opt_view(*reason) {
        Some(r) => r,
        None => Seq::empty(),
    };
    assert(crate::model::json_fields_view(attrs@) =~= seq![
        ("action"@, JsonV::Text(n.id@)),
        ("operation"@, JsonV::Text(operation@)),
        ("reason"@, JsonV::Text(rv)),
    ]);
    push_text(&mut attrs, "state", target_state);
    let attempt = Node { id: attempt_id, stable_key: string_of(&key), node_type: String::from_str("ExecutionAttempt"), attributes: attrs };
    let ghost at = attempt_record(n@, target_state@, operation@, opt_view(*reason), token@);
    assert(crate::model::json_fields_view(attempt.attributes@) =~= at.attributes);
    assert(attempt@ == at);
    let e = make_spec_edge(n.id.as_str(), "HAS_EXECUTION_ATTEMPT", attempt.id.as_str());
    let mut d = GraphDelta::empty();
    d.create_nodes.push(attempt);
    d.update_nodes.push(updated);
    d.create_edges.push(e);
    assert(views(d.create_nodes@) =~= seq![at]);
    assert(views(d.update_nodes@) =~= seq![moved_action(n@, target_state@, opt_view(*reason))]);
    assert(views(d.create_edges@) =~= seq![spec_edge(n.id@, "HAS_EXECUTION_ATTEMPT"@, at.id)]);
    Ok(d)
}

/// Starting an action is blocked exactly by its unfinished dependencies (each
/// `DEPENDS_ON` target that is missing or not Completed); completing it is
/// blocked, by one blocker, exactly when no ValidationRun has passed; no
/// other move is blocked.
pub proof fn action_moves_blocked_as_documented(
    nm: Map<Seq<char>, NodeV>,
    ns: Seq<NodeV>,
    es: Seq<EdgeV>,
    action: Seq<char>,
    target: Seq<char>,
)
    ensures
        action_blockers(nm, ns, es, action, "InProgress"@) == crate::store::unfinished_dependencies(nm, es, action),
        action_blockers(nm, ns, es, action, "Completed"@).len() == (if crate::store::has_passed_run(ns) {
            0int
        } else {
            1int
        }),
        target != "InProgress"@ && target != "Completed"@ ==> action_blockers(nm, ns, es, action, target).len() == 0,
{
    reveal_strlit("InProgress");
    reveal_strlit("Completed");
    assert("InProgress"@.len() == 10);
    assert("Completed"@.len() == 9);
    assert("InProgress"@ != "Completed"@);
    assert(action_blockers(nm, ns, es, action, "InProgress"@) =~= crate::store::unfinished_dependencies(nm, es, action));
}

/// `uuid::Uuid::new_v4`, in its hyphenated text form. The value is random:
/// nothing is stated of it.
#[verifier::external_body]
fn random_uuid() -> (r: String) {
    uuid::Uuid::new_v4().to_string()
}

/// The delta of an action lifecycle operation (see
/// `action_transition_delta`), its attempt told apart by a fresh random
/// UUID: whatever the UUID, the errors and the delta are as stated there. In
/// particular, completing a found action with no passed ValidationRun is
/// refused with one blocker, and starting one is refused with as many
/// blockers as it has unfinished dependencies.
pub fn plan_action_transition(
    graph: &Graph,
    options: &ActionLifecycleOptions,
    operation: &str,
    target_state: &str,
) -> (r: Result<GraphDelta, StoreError>)
    ensures
        match action_target(graph.node_map(), graph.node_seq(), options.action@) {
            None => r matches Err(StoreError::ActionGraphNotFound(a)) && a@ == options.action@,
            Some(n) => {
                let b = action_blockers(graph.node_map(), graph.node_seq(), graph.edge_seq(), n.id, target_state@);
                if b.len() > 0 {
                    r matches Err(StoreError::OperationValidationFailed(c)) && c == b.len()
                } else {
                    r matches Ok(d) && exists|t: Seq<char>|
                        is_action_move(d, n, target_state@, operation@, opt_view(options.reason), t)
                }
            },
        },
        (action_target(graph.node_map(), graph.node_seq(), options.action@) is Some && target_state@ == "Completed"@
            && !crate::store::has_passed_run(graph.node_seq())) ==> (r matches Err(
            StoreError::OperationValidationFailed(c),
        ) && c == 1),
        match action_target(graph.node_map(), graph.node_seq(), options.action@) {
            Some(n) => (target_state@ == "InProgress"@ && crate::store::unfinished_dependencies(
                graph.node_map(),
                graph.edge_seq(),
                n.id,
            ).len() > 0) ==> (r matches Err(StoreError::OperationValidationFailed(c)) && c
                == crate::store::unfinished_dependencies(graph.node_map(), graph.edge_seq(), n.id).len()),
            None => true,
        },
{
    proof {
        if let Some(n) = action_target(graph.node_map(), graph.node_seq(), options.action@) {
            action_moves_blocked_as_documented(
                graph.node_map(),
                graph.node_seq(),
                graph.edge_seq(),
                n.id,
                target_state@,
            );
        }
    }
    let token = random_uuid();
    action_transition_delta(graph, &options.action, &options.reason, operation, target_state, token.as_str())
}


// ------------------------------------------------------------ operation gate

pub type FullFinding = (Seq<char>, FindingSeverity, Seq<char>, Seq<Seq<char>>, Seq<Seq<char>>);

/// How many findings are errors.
pub open spec fn full_errors(fs: Seq<FullFinding>) -> nat
    decreases fs.len(),
{
    if fs.len() == 0 {
        0
    } else {
        full_errors(fs.drop_last()) + if fs.last().1 == FindingSeverity::Error {
            1nat
        } else {
            0nat
        }
    }
}

/// How many report findings are errors.
pub open spec fn report_errors(fs: Seq<(Seq<char>, FindingSeverity, Seq<char>)>) -> nat
    decreases fs.len(),
{
    if fs.len() == 0 {
        0
    } else {
        report_errors(fs.drop_last()) + if fs.last().1 == FindingSeverity::Error {
            1nat
        } else {
            0nat
        }
    }
}

/// How many decisions deny or ask for approval.
pub open spec fn blocking_decisions(ds: Seq<(Seq<char>, PolicyEffect, Seq<char>)>) -> nat
    decreases ds.len(),
{
    if ds.len() == 0 {
        0
    } else {
        blocking_decisions(ds.drop_last()) + if ds.last().1 == PolicyEffect::Deny || ds.last().1
            == PolicyEffect::RequireApproval {
            1nat
        } else {
            0nat
        }
    }
}

pub(crate) fn count_errors(fs: &Vec<Finding>) -> (r: usize)
    ensures
        r == full_errors(findings_full(fs@)),
        r == report_errors(findings_view(fs@)),
{
    let ghost ff = findings_full(fs@);
    let ghost fv = findings_view(fs@);
    let mut c: usize = 0;
    let mut i: usize = 0;
    while i < fs.len()
        invariant
            i <= fs@.len(),
            ff == findings_full(fs@),
            fv == findings_view(fs@),
            c == full_errors(ff.take(i as int)),
            c == report_errors(fv.take(i as int)),
            c <= i,
        decreases fs@.len() - i,
    {
        assert(ff.take(i + 1).drop_last() =~= ff.take(i as int));
        assert(fv.take(i + 1).drop_last() =~= fv.take(i as int));
        assert(ff.take(i + 1).last() == finding_full(fs@[i as int]));
        if fs[i].severity == FindingSeverity::Error {
            c = c + 1;
        }
        i = i + 1;
    }
    assert(ff.take(ff.len() as int) =~= ff);
    assert(fv.take(fv.len() as int) =~= fv);
    c
}

fn count_blocking(ds: &Vec<crate::policy::PolicyDecision>) -> (r: usize)
    ensures
        r == blocking_decisions(decisions_view(ds@)),
{
    let ghost dv = decisions_view(ds@);
    let mut c: usize = 0;
    let mut i: usize = 0;
    while i < ds.len()
        invariant
            i <= ds@.len(),
            dv == decisions_view(ds@),
            c == blocking_decisions(dv.take(i as int)),
            c <= i,
        decreases ds@.len() - i,
    {
        assert(dv.take(i + 1).drop_last() =~= dv.take(i as int));
        assert(dv.take(i + 1).last() == decision_view(ds@[i as int]));
        let e = ds[i].effect;
        if e == PolicyEffect::Deny || e == PolicyEffect::RequireApproval {
            c = c + 1;
        }
        i = i + 1;
    }
    assert(dv.take(dv.len() as int) =~= dv);
    c
}

/// The policy input of an operation: its name, the files it changes (none
/// for a recorded policy decision, else those of `policy_files`), and the
/// actor's roles; no approvals or waivers.
pub open spec fn is_operation_policy_input(
    i: PolicyCheckInput,
    request: OperationRequest,
    delta: GraphDelta,
    roles: Seq<Seq<char>>,
) -> bool {
    &&& i.operation@ == request.operation@
    &&& strings_view(i.changed_files@) == if request.operation@ == "Policy.RecordDecision"@ {
        Seq::<Seq<char>>::empty()
    } else {
        policy_files(crate::model::json_view(request.input), delta)
    }
    &&& strings_view(i.actor_roles@) == roles
    &&& i.approvals@.len() == 0
    &&& i.waivers@.len() == 0
}

/// The policy input of an operation (see `is_operation_policy_input`).
pub fn operation_policy_input(request: &OperationRequest, delta: &GraphDelta, actor_roles: &Vec<String>) -> (i:
    PolicyCheckInput)
    ensures
        is_operation_policy_input(i, *request, *delta, strings_view(actor_roles@)),
{
    let changed_files = if crate::text::eq_str(&string_chars(&request.operation), "Policy.RecordDecision") {
        let v: Vec<String> = Vec::new();
        assert(strings_view(v@) =~= Seq::<Seq<char>>::empty());
        v
    } else {
        changed_files_for_policy(request, delta)
    };
    PolicyCheckInput {
        operation: request.operation.clone(),
        changed_files,
        actor_roles: actor_roles.clone(),
        approvals: Vec::new(),
        waivers: Vec::new(),
    }
}

/// The number of blocking policy results: denials, approval requests and
/// error findings.
pub open spec fn policy_blockers(i: PolicyCheckInput, now: i128) -> nat {
    blocking_decisions(builtin_decisions(i, now)) + report_errors(builtin_findings(i, now))
}

/// An updated node that moves a spec along no edge of the spec lifecycle:
/// a Spec node of the graph given a `state` other than its recorded one
/// (see `recorded_state`) and other than the state that follows it.
pub open spec fn bad_spec_move(nm: Map<Seq<char>, NodeV>, n: NodeV) -> bool {
    &&& n.node_type == "Spec"@
    &&& nm.contains_key(n.id)
    &&& match attr_text(n.attributes, "state"@) {
        Some(t) => t != recorded_state(nm[n.id]) && spec_successor(recorded_state(nm[n.id])) != Some(t),
        None => false,
    }
}

/// How many updated nodes make a move the spec lifecycle refuses.
pub open spec fn bad_spec_moves(nm: Map<Seq<char>, NodeV>, ns: Seq<NodeV>) -> nat
    decreases ns.len(),
{
    if ns.len() == 0 {
        0
    } else {
        bad_spec_moves(nm, ns.drop_last()) + if bad_spec_move(nm, ns.last()) {
            1nat
        } else {
            0nat
        }
    }
}

fn is_bad_spec_move(graph: &Graph, n: &Node) -> (r: bool)
    ensures
        r == bad_spec_move(graph.node_map(), n@),
{
    if !crate::text::eq_str(&string_chars(&n.node_type), "Spec") {
        return false;
    }
    let old = match graph.node(n.id.as_str()) {
        Some(o) => o,
        None => return false,
    };
    let target = match fields_text(&n.attributes, "state") {
        Some(t) => t,
        None => return false,
    };
    let prior = match fields_text(&old.attributes, "state") {
        Some(p) => p,
        None => String::from_str("Draft"),
    };
    assert(recorded_state(graph.node_map()[n.id@]) == prior@);
    let tc = string_chars(&target);
    if crate::text::eq_chars(&tc, &string_chars(&prior)) {
        return false;
    }
    let next = next_spec_states(prior.as_str());
    if next.len() > 0 {
        assert(crate::store::statics_view(next@)[0] == next[0]@);
        proof {
            match spec_successor(prior@) {
                Some(x) => {
                    assert(crate::store::statics_view(next@) == seq![x]);
                    assert(seq![x][0] == x);
                },
                None => {
                    assert(crate::store::statics_view(next@).len() == 0);
                },
            }
        }
        assert(spec_successor(prior@) == Some(next[0]@));
        !crate::text::eq_chars(&tc, &chars_of(next[0]))
    } else {
        assert(crate::store::statics_view(next@).len() == 0);
        assert(spec_successor(prior@) is None);
        true
    }
}

fn count_bad_spec_moves(graph: &Graph, ns: &Vec<Node>) -> (r: usize)
    ensures
        r == bad_spec_moves(graph.node_map(), views(ns@)),
{
    let ghost vs = views(ns@);
    let mut c: usize = 0;
    let mut i: usize = 0;
    while i < ns.len()
        invariant
            i <= ns@.len(),
            vs == views(ns@),
            c == bad_spec_moves(graph.node_map(), vs.take(i as int)),
            c <= i,
        decreases ns@.len() - i,
    {
        assert(vs.take(i + 1).drop_last() =~= vs.take(i as int));
        assert(vs.take(i + 1).last() == ns@[i as int]@);
        if is_bad_spec_move(graph, &ns[i]) {
            c = c + 1;
        }
        i = i + 1;
    }
    assert(vs.take(vs.len() as int) =~= vs);
    c
}

/// What running an operation's checks does to a graph `g0`, ending in
/// `g1` with result `r`, under a policy input and a time: the request is
/// checked against its operation, the delta's preconditions against `g0`,
/// the built-in policies against the input, the spec lifecycle against the
/// updated Spec nodes (see `bad_spec_moves`), then the delta is applied and
/// its postconditions and the ontology's integrity rules are checked. The
/// first check with errors refuses the operation with their number (the
/// policy count held at `usize::MAX`); a refusal before the delta is
/// applied leaves the graph as it was.
pub open spec fn gate_outcome(
    g0: Graph,
    g1: Graph,
    r: Result<(), StoreError>,
    request: OperationRequest,
    delta: GraphDelta,
    ontology: MvpOntology,
    input: PolicyCheckInput,
    now: i128,
) -> bool {
    let c1 = full_errors(
        request_findings(
            request.operation@,
            request.schema_version@,
            request.actor@,
            crate::model::json_view(request.input),
            delta,
        ),
    );
    let c2 = full_errors(precondition_findings(g0.node_map().dom(), g0.edge_map().dom(), delta));
    let c3 = policy_blockers(input, now);
    let cs = bad_spec_moves(g0.node_map(), views(delta.update_nodes@));
    let nm2 = delta_nodes(g0.node_map(), delta);
    let em2 = delta_edges(g0.edge_map(), delta);
    let c4 = full_errors(postcondition_findings(nm2.dom(), em2.dom(), delta));
    let c5 = full_errors(
        nodes_integrity(ontology.node_type_set(), g1.node_seq()) + edges_integrity(
            ontology.edge_type_set(),
            g1.node_map(),
            g1.edge_seq(),
        ),
    );
    if c1 > 0 {
        (r matches Err(StoreError::OperationValidationFailed(c)) && c == c1) && g1 == g0
    } else if c2 > 0 {
        (r matches Err(StoreError::OperationValidationFailed(c)) && c == c2) && g1 == g0
    } else if c3 > 0 {
        (r matches Err(StoreError::PolicyValidationFailed(c)) && c == if c3 <= usize::MAX {
            c3
        } else {
            usize::MAX as nat
        }) && g1 == g0
    } else if cs > 0 {
        (r matches Err(StoreError::OntologyValidationFailed(c)) && c == cs) && g1 == g0
    } else {
        &&& g1.node_map() == nm2
        &&& g1.edge_map() == em2
        &&& if c4 > 0 {
            r matches Err(StoreError::OperationValidationFailed(c)) && c == c4
        } else if c5 > 0 {
            r matches Err(StoreError::OntologyValidationFailed(c)) && c == c5
        } else {
            r is Ok
        }
    }
}

/// Runs an operation's checks and applies its delta (see `gate_outcome`),
/// with the given policy input, at time `now`.
pub fn apply_operation_at(
    graph: &mut Graph,
    request: &OperationRequest,
    delta: &GraphDelta,
    ontology: &MvpOntology,
    policy_input: &PolicyCheckInput,
    now: i128,
) -> (r: Result<(), StoreError>)
    ensures
        gate_outcome(*old(graph), *final(graph), r, *request, *delta, *ontology, *policy_input, now),
{
    let c1 = count_errors(&validate_operation_request(request, delta));
    if c1 > 0 {
        return Err(StoreError::OperationValidationFailed(c1));
    }
    let c2 = count_errors(&validate_operation_preconditions(graph, delta));
    if c2 > 0 {
        return Err(StoreError::OperationValidationFailed(c2));
    }
    let report = evaluate_policies_at(policy_input, now);
    let b = count_blocking(&report.decisions);
    let e = count_errors(&report.findings);
    if b > 0 || e > 0 {
        return Err(StoreError::PolicyValidationFailed(b.saturating_add(e)));
    }
    let cs = count_bad_spec_moves(graph, &delta.update_nodes);
    if cs > 0 {
        return Err(StoreError::OntologyValidationFailed(cs));
    }
    graph.apply_delta(delta);
    let c4 = count_errors(&validate_operation_postconditions(graph, delta));
    if c4 > 0 {
        return Err(StoreError::OperationValidationFailed(c4));
    }
    let c5 = count_errors(&ontology.validate_integrity(graph));
    if c5 > 0 {
        return Err(StoreError::OntologyValidationFailed(c5));
    }
    Ok(())
}

/// Runs an operation's checks and applies its delta (see `gate_outcome`),
/// with the operation's policy input for the actor's roles (see
/// `is_operation_policy_input`), at the clock's current time.
pub fn apply_operation(
    graph: &mut Graph,
    request: &OperationRequest,
    delta: &GraphDelta,
    ontology: &MvpOntology,
    actor_roles: &Vec<String>,
) -> (r: Result<(), StoreError>)
    ensures
        exists|i: PolicyCheckInput, now: i128|
            is_operation_policy_input(i, *request, *delta, strings_view(actor_roles@)) && gate_outcome(
                *old(graph),
                *final(graph),
                r,
                *request,
                *delta,
                *ontology,
                i,
                now,
            ),
{
    let input = operation_policy_input(request, delta, actor_roles);
    let now = now_unix_nanos();
    apply_operation_at(graph, request, delta, ontology, &input, now)
}


pub(crate) fn node_id_list(v: &Vec<Node>) -> (r: Vec<String>)
    ensures
        strings_view(r@) == node_ids(views(v@)),
{
    let mut out: Vec<String> = Vec::new();
    let mut i: usize = 0;
    while i < v.len()
        invariant
            i <= v@.len(),
            strings_view(out@) == node_ids(views(v@)).take(i as int),
        decreases v@.len() - i,
    {
        let ghost before = strings_view(out@);
        out.push(v[i].id.clone());
        assert(node_ids(views(v@))[i as int] == v@[i as int].id@);
        assert(strings_view(out@) =~= before.push(v@[i as int].id@));
        assert(strings_view(out@) =~= node_ids(views(v@)).take(i + 1));
        i = i + 1;
    }
    assert(node_ids(views(v@)).take(v@.len() as int) =~= node_ids(views(v@)));
    out
}

pub(crate) fn edge_id_list(v: &Vec<Edge>) -> (r: Vec<String>)
    ensures
        strings_view(r@) == edge_ids(views(v@)),
{
    let mut out: Vec<String> = Vec::new();
    let mut i: usize = 0;
    while i < v.len()
        invariant
            i <= v@.len(),
            strings_view(out@) == edge_ids(views(v@)).take(i as int),
        decreases v@.len() - i,
    {
        let ghost before = strings_view(out@);
        out.push(v[i].id.clone());
        assert(edge_ids(views(v@))[i as int] == v@[i as int].id@);
        assert(strings_view(out@) =~= before.push(v@[i as int].id@));
        assert(strings_view(out@) =~= edge_ids(views(v@)).take(i + 1));
        i = i + 1;
    }
    assert(edge_ids(views(v@)).take(v@.len() as int) =~= edge_ids(views(v@)));
    out
}

/// The receipt of an accepted operation before any event is written: the
/// request's id, name and dry-run flag, the state hashes around it, and the
/// ids the delta creates, updates and deletes; no event ids, no findings.
pub fn accepted_receipt(request: &OperationRequest, pre_state_hash: &String, post_state_hash: &String, delta: &GraphDelta) -> (r:
    OperationReceipt)
    ensures
        r.operation_id@ == request.operation_id@,
        r.operation@ == request.operation@,
        r.accepted,
        r.dry_run == request.dry_run,
        r.pre_state_hash@ == pre_state_hash@,
        r.post_state_hash@ == post_state_hash@,
        r.event_ids@.len() == 0,
        strings_view(r.created_nodes@) == node_ids(views(delta.create_nodes@)),
        strings_view(r.updated_nodes@) == node_ids(views(delta.update_nodes@)),
        strings_view(r.deleted_nodes@) == strings_view(delta.delete_nodes@),
        strings_view(r.created_edges@) == edge_ids(views(delta.create_edges@)),
        strings_view(r.updated_edges@) == edge_ids(views(delta.update_edges@)),
        strings_view(r.deleted_edges@) == strings_view(delta.delete_edges@),
        r.findings@.len() == 0,
{
    OperationReceipt {
        operation_id: request.operation_id.clone(),
        operation: request.operation.clone(),
        accepted: true,
        dry_run: request.dry_run,
        pre_state_hash: pre_state_hash.clone(),
        post_state_hash: post_state_hash.clone(),
        event_ids: Vec::new(),
        created_nodes: node_id_list(&delta.create_nodes),
        updated_nodes: node_id_list(&delta.update_nodes),
        deleted_nodes: delta.delete_nodes.clone(),
        created_edges: edge_id_list(&delta.create_edges),
        updated_edges: edge_id_list(&delta.update_edges),
        deleted_edges: delta.delete_edges.clone(),
        findings: Vec::new(),
    }
}


// ------------------------------------------------------------ commit records

pub proof fn lemma_full_errors_append(a: Seq<FullFinding>, b: Seq<FullFinding>)
    ensures
        full_errors(a + b) == full_errors(a) + full_errors(b),
    decreases b.len(),
{
    if b.len() == 0 {
        assert(a + b =~= a);
    } else {
        lemma_full_errors_append(a, b.drop_last());
        assert((a + b).drop_last() =~= a + b.drop_last());
    }
}

proof fn lemma_single_errors()
    ensures
        forall|s: Seq<FullFinding>|
            s.len() == 1 ==> #[trigger] full_errors(s) == if s[0].1 == FindingSeverity::Error {
                1nat
            } else {
                0nat
            },
{
    assert forall|s: Seq<FullFinding>| s.len() == 1 implies #[trigger] full_errors(s) == if s[0].1
        == FindingSeverity::Error {
        1nat
    } else {
        0nat
    } by {
        assert(s.drop_last() =~= Seq::<FullFinding>::empty());
        assert(full_errors(s.drop_last()) == 0);
        assert(s.last() == s[0]);
    }
}

proof fn lemma_no_missing_trailer(commit: Seq<char>, t: crate::git::TrailersView)
    requires
        full_errors(missing_trailer_findings(commit, t)) == 0,
    ensures
        t.0 is Some && t.1 is Some && t.2 is Some,
{
    let a = if crate::git::trailer_missing(t.0) {
        gerr("commit.missing_trailer"@, "Commit `"@ + commit + "` is missing required `"@ + "Spec"@ + ":` trailer"@)
    } else {
        Seq::empty()
    };
    let b = if crate::git::trailer_missing(t.1) {
        gerr("commit.missing_trailer"@, "Commit `"@ + commit + "` is missing required `"@ + "ActionGroup"@ + ":` trailer"@)
    } else {
        Seq::empty()
    };
    let c = if crate::git::trailer_missing(t.2) {
        gerr("commit.missing_trailer"@, "Commit `"@ + commit + "` is missing required `"@ + "CommitPlan"@ + ":` trailer"@)
    } else {
        Seq::empty()
    };
    assert(missing_trailer_findings(commit, t) == a + b + c);
    lemma_full_errors_append(a + b, c);
    lemma_full_errors_append(a, b);
    lemma_single_errors();
}

/// A binding without errors names a spec, action graph, action group and
/// commit plan that the graph holds.
proof fn lemma_valid_binding_links(
    nm: Map<Seq<char>, NodeV>,
    ns: Seq<NodeV>,
    es: Seq<EdgeV>,
    commit: Seq<char>,
    message: Seq<char>,
    files: Seq<Seq<char>>,
    symbols: Seq<Seq<char>>,
    parsed: Option<GraphDelta>,
)
    requires
        full_errors(binding_findings(nm, ns, es, commit, message, files, symbols, parsed)) == 0,
    ensures
        match trailers_of(lines(message)) {
            (Some(spec), Some(ag), Some(cp), _) => match first_spec(ns, spec) {
                Some(sn) => match first_out(es, sn.id, "HAS_ACTION_GRAPH"@) {
                    Some(age) => match first_target(nm, es, age.to, "HAS_ACTION_GROUP"@, ag) {
                        Some(g) => first_target(nm, es, g.id, "HAS_COMMIT_PLAN"@, cp) is Some,
                        None => false,
                    },
                    None => false,
                },
                None => false,
            },
            _ => false,
        },
{
    let t = trailers_of(lines(message));
    let miss = missing_trailer_findings(commit, t);
    let fs = binding_findings(nm, ns, es, commit, message, files, symbols, parsed);
    let tail = fs.subrange(miss.len() as int, fs.len() as int);
    assert(fs =~= miss + tail);
    lemma_full_errors_append(miss, tail);
    lemma_no_missing_trailer(commit, t);
    lemma_single_errors();
    if tail.len() == 1 {
        assert(tail[0] == fs[miss.len() as int]);
    }
}

/// The CodeFile node of a changed file.
pub open spec fn code_file_record(f: Seq<char>) -> NodeV {
    NodeV {
        id: spec_node_id("code_file"@, f),
        stable_key: "code-file:"@ + f,
        node_type: "CodeFile"@,
        attributes: seq![("path"@, JsonV::Text(f))],
    }
}

/// The GitCommit node of a recorded commit.
pub open spec fn commit_record(commit: Seq<char>, message: Seq<char>, spec: Seq<char>) -> NodeV {
    NodeV {
        id: spec_node_id("git_commit"@, commit),
        stable_key: "git-commit:"@ + commit,
        node_type: "GitCommit"@,
        attributes: seq![
            ("message"@, JsonV::Text(message)),
            ("sha"@, JsonV::Text(commit)),
            ("spec"@, JsonV::Text(spec)),
        ],
    }
}

pub open spec fn file_records(files: Seq<Seq<char>>) -> Seq<NodeV> {
    files.map_values(|f: Seq<char>| code_file_record(f))
}

pub open spec fn file_edges(cid: Seq<char>, files: Seq<Seq<char>>) -> Seq<EdgeV> {
    files.map_values(|f: Seq<char>| spec_edge(cid, "CHANGES_FILE"@, spec_node_id("code_file"@, f)))
}

/// What recording a commit creates: its node, then a CodeFile node per
/// changed file; its edges to the action group and the commit plan, then a
/// `CHANGES_FILE` edge per file.
pub open spec fn is_commit_record(
    d: GraphDelta,
    commit: Seq<char>,
    message: Seq<char>,
    spec: Seq<char>,
    group: Seq<char>,
    plan: Seq<char>,
    files: Seq<Seq<char>>,
) -> bool {
    let cid = spec_node_id("git_commit"@, commit);
    &&& views(d.create_nodes@) == seq![commit_record(commit, message, spec)] + file_records(files)
    &&& views(d.create_edges@) == seq![
        spec_edge(cid, "IMPLEMENTS_ACTION_GROUP"@, group),
        spec_edge(cid, "FOLLOWS_COMMIT_PLAN"@, plan),
    ] + file_edges(cid, files)
    &&& d.update_nodes@.len() == 0
    &&& d.delete_nodes@.len() == 0
    &&& d.update_edges@.len() == 0
    &&& d.delete_edges@.len() == 0
}

/// The delta that records a commit: refused, with the number of errors,
/// where the commit's binding is invalid (see `binding_findings`); else the
/// commit bound to the action group and commit plan its trailers name, with
/// its changed files (see `is_commit_record`). A valid binding always names
/// an existing spec, group and plan.
#[verifier::rlimit(40)]
pub fn record_commit_delta(graph: &Graph, input: &CommitValidationInput, parsed_graph_delta: &Option<GraphDelta>) -> (r:
    Result<GraphDelta, StoreError>)
    ensures
        ({
            let c = full_errors(
                binding_findings(
                    graph.node_map(),
                    graph.node_seq(),
                    graph.edge_seq(),
                    input.commit@,
                    input.message@,
                    strings_view(input.changed_files@),
                    strings_view(input.changed_symbols@),
                    *parsed_graph_delta,
                ),
            );
            let nm = graph.node_map();
            let es = graph.edge_seq();
            if c > 0 {
                r matches Err(StoreError::CommitValidationFailed(k)) && k == c
            } else {
                match trailers_of(lines(input.message@)) {
                    (Some(spec), Some(ag), Some(cp), _) => match first_spec(graph.node_seq(), spec) {
                        Some(sn) => match first_out(es, sn.id, "HAS_ACTION_GRAPH"@) {
                            Some(age) => match first_target(nm, es, age.to, "HAS_ACTION_GROUP"@, ag) {
                                Some(g) => match first_target(nm, es, g.id, "HAS_COMMIT_PLAN"@, cp) {
                                    Some(p) => r matches Ok(d) && is_commit_record(
                                        d,
                                        input.commit@,
                                        input.message@,
                                        spec,
                                        g.id,
                                        p.id,
                                        strings_view(input.changed_files@),
                                    ),
                                    None => false,
                                },
                                None => false,
                            },
                            None => false,
                        },
                        None => false,
                    },
                    _ => false,
                }
            }
        }),
{
    let findings = validate_commit_binding(graph, input, parsed_graph_delta);
    let c = count_errors(&findings);
    if c > 0 {
        return Err(StoreError::CommitValidationFailed(c));
    }
    proof {
        lemma_valid_binding_links(
            graph.node_map(),
            graph.node_seq(),
            graph.edge_seq(),
            input.commit@,
            input.message@,
            strings_view(input.changed_files@),
            strings_view(input.changed_symbols@),
            *parsed_graph_delta,
        );
    }
    let trailers = parse_commit_trailers(input.message.as_str());
    let (spec, ag, cp) = match (&trailers.spec, &trailers.action_group, &trailers.commit_plan) {
        (Some(a), Some(b), Some(c)) => (a, b, c),
        _ => {
            proof {
                assert(false);
            }
            return Err(StoreError::CommitValidationFailed(0));
        },
    };
    let sn = match find_spec_node(graph, spec) {
        Some(n) => n,
        None => {
            proof {
                assert(false);
            }
            return Err(StoreError::SpecNotFound(spec.clone()));
        },
    };
    let (group_id, plan_id) = match crate::store::find_action_group_and_commit_plan(graph, &sn.id, ag, cp) {
        Some(p) => p,
        None => {
            proof {
                assert(false);
            }
            return Err(StoreError::CommitValidationFailed(1));
        },
    };
    let commit_id = node_id("git_commit", input.commit.as_str());
    let commit_text = commit_id.clone();
    let mut attrs: Vec<(String, JsonValue)> = Vec::new();
    assert(crate::model::json_fields_view(attrs@) =~= Seq::empty());
    push_text(&mut attrs, "message", input.message.as_str());
    push_text(&mut attrs, "sha", input.commit.as_str());
    push_text(&mut attrs, "spec", spec.as_str());
    let mut key = chars_of("git-commit:");
    append(&mut key, &string_chars(&input.commit));
    let cn = Node { id: commit_id, stable_key: string_of(&key), node_type: String::from_str("GitCommit"), attributes: attrs };
    assert(crate::model::json_fields_view(cn.attributes@) =~= commit_record(input.commit@, input.message@, spec@).attributes);
    assert(cn@ == commit_record(input.commit@, input.message@, spec@));
    let mut nodes: Vec<Node> = Vec::new();
    let mut edges: Vec<Edge> = Vec::new();
    edges.push(make_spec_edge(cn.id.as_str(), "IMPLEMENTS_ACTION_GROUP", group_id.as_str()));
    edges.push(make_spec_edge(cn.id.as_str(), "FOLLOWS_COMMIT_PLAN", plan_id.as_str()));
    let ghost cid = cn.id@;
    nodes.push(cn);
    let ghost files = strings_view(input.changed_files@);
    let ghost n0 = views(nodes@);
    let ghost e0 = views(edges@);
    assert(n0 =~= seq![commit_record(input.commit@, input.message@, spec@)]);
    assert(e0 =~= seq![
        spec_edge(cid, "IMPLEMENTS_ACTION_GROUP"@, group_id@),
        spec_edge(cid, "FOLLOWS_COMMIT_PLAN"@, plan_id@),
    ]);
    let mut i: usize = 0;
    while i < input.changed_files.len()
        invariant
            i <= files.len(),
            files == strings_view(input.changed_files@),
            cid == spec_node_id("git_commit"@, input.commit@),
            commit_text@ == cid,
            views(nodes@) == n0 + file_records(files.take(i as int)),
            views(edges@) == e0 + file_edges(cid, files.take(i as int)),
        decreases files.len() - i,
    {
        let f = &input.changed_files[i];
        assert(files[i as int] == f@);
        let fid = node_id("code_file", f.as_str());
        let mut fa: Vec<(String, JsonValue)> = Vec::new();
        assert(crate::model::json_fields_view(fa@) =~= Seq::empty());
        push_text(&mut fa, "path", f.as_str());
        let mut fk = chars_of("code-file:");
        append(&mut fk, &string_chars(f));
        let fe = make_spec_edge(commit_text.as_str(), "CHANGES_FILE", fid.as_str());
        let fnode = Node { id: fid, stable_key: string_of(&fk), node_type: String::from_str("CodeFile"), attributes: fa };
        assert(crate::model::json_fields_view(fnode.attributes@) =~= code_file_record(f@).attributes);
        assert(fnode@ == code_file_record(f@));
        let ghost pn = views(nodes@);
        let ghost pe = views(edges@);
        nodes.push(fnode);
        edges.push(fe);
        assert(views(nodes@) =~= pn.push(code_file_record(f@)));
        assert(views(edges@) =~= pe.push(spec_edge(cid, "CHANGES_FILE"@, spec_node_id("code_file"@, f@))));
        assert(files.take(i + 1) =~= files.take(i as int).push(f@));
        assert(file_records(files.take(i + 1)) =~= file_records(files.take(i as int)).push(code_file_record(f@)));
        assert(file_edges(cid, files.take(i + 1)) =~= file_edges(cid, files.take(i as int)).push(
            spec_edge(cid, "CHANGES_FILE"@, spec_node_id("code_file"@, f@)),
        ));
        i = i + 1;
    }
    assert(files.take(files.len() as int) =~= files);
    let mut d = GraphDelta::empty();
    d.create_nodes = nodes;
    d.create_edges = edges;
    assert(trailers_view(trailers).0 == Some(spec@));
    assert(is_commit_record(d, input.commit@, input.message@, spec@, group_id@, plan_id@, files));
    Ok(d)
}


// ------------------------------------------------------------ branch binding

pub open spec fn opt_text_json(o: Option<Seq<char>>) -> JsonV {
    match o {
        Some(s) => JsonV::Text(s),
        None => JsonV::Null,
    }
}

fn opt_text_value(o: &Option<String>) -> (r: JsonValue)
    ensures
        r@ == opt_text_json(opt_view(*o)),
{
    match o {
        Some(s) => JsonValue::Text(s.clone()),
        None => JsonValue::Null,
    }
}

/// The GitBranch node of a binding, based on the replay state it starts
/// from.
pub open spec fn branch_record(
    branch: Seq<char>,
    spec: Seq<char>,
    actor: Seq<char>,
    state_hash: Seq<char>,
    sequence: u64,
    event: Option<Seq<char>>,
) -> NodeV {
    NodeV {
        id: spec_node_id("git_branch"@, branch),
        stable_key: "git-branch:"@ + branch,
        node_type: "GitBranch"@,
        attributes: seq![
            ("baseEventId"@, opt_text_json(event)),
            ("baseEventSequence"@, duration_json(Some(sequence))),
            ("baseSnapshotId"@, JsonV::Text(spec_node_id("graph_snapshot"@, state_hash))),
            ("baseStateHash"@, JsonV::Text(state_hash)),
            ("createdBy"@, JsonV::Text(actor)),
            ("name"@, JsonV::Text(branch)),
            ("spec"@, JsonV::Text(spec)),
        ],
    }
}

/// The GraphSnapshot node of the replay state a binding starts from.
pub open spec fn snapshot_record(state_hash: Seq<char>, sequence: u64, event: Option<Seq<char>>) -> NodeV {
    NodeV {
        id: spec_node_id("graph_snapshot"@, state_hash),
        stable_key: "graph-snapshot:"@ + state_hash,
        node_type: "GraphSnapshot"@,
        attributes: seq![
            ("eventId"@, opt_text_json(event)),
            ("eventSequence"@, duration_json(Some(sequence))),
            ("snapshotId"@, JsonV::Text(spec_node_id("graph_snapshot"@, state_hash))),
            ("stateHash"@, JsonV::Text(state_hash)),
        ],
    }
}

/// The delta that binds a spec to a Git branch at the replayed state
/// (`state_hash`, the last event's sequence and id), and the branch metadata
/// kept beside it. Refused where the branch name does not start with
/// `spec/<spec>` (ignoring case), or where no Spec node records the spec.
pub fn bind_branch_delta(
    graph: &Graph,
    options: &BindBranchOptions,
    state_hash: &String,
    last_sequence: u64,
    last_event_id: &Option<String>,
) -> (r: Result<(GraphDelta, BranchMetadata), StoreError>)
    ensures
        !spec_branch_ok(options.spec@, options.branch@) ==> (r matches Err(StoreError::InvalidBranchName(b))
            && b@ == options.branch@),
        spec_branch_ok(options.spec@, options.branch@) ==> match first_spec(graph.node_seq(), options.spec@) {
            None => r matches Err(StoreError::SpecNotFound(s)) && s@ == options.spec@,
            Some(sn) => r matches Ok((d, m)) && {
                let br = branch_record(
                    options.branch@,
                    options.spec@,
                    options.actor@,
                    state_hash@,
                    last_sequence,
                    opt_view(*last_event_id),
                );
                let sn2 = snapshot_record(state_hash@, last_sequence, opt_view(*last_event_id));
                &&& creates_only(
                    d,
                    seq![br, sn2],
                    seq![spec_edge(sn.id, "BOUND_TO_BRANCH"@, br.id), spec_edge(br.id, "STARTS_FROM_SNAPSHOT"@, sn2.id)],
                )
                &&& m.schema_version@ == "specgraph.branch-metadata/v1"@
                &&& m.branch@ == options.branch@
                &&& m.spec@ == options.spec@
                &&& m.graph_branch@ == options.graph_branch@
                &&& m.base_snapshot_id@ == sn2.id
                &&& m.base_state_hash@ == state_hash@
                &&& m.base_event_sequence == last_sequence
                &&& opt_view(m.base_event_id) == opt_view(*last_event_id)
                &&& m.created_by@ == options.actor@
            },
        },
{
    match validate_spec_branch_name(options.spec.as_str(), options.branch.as_str()) {
        Ok(()) => {},
        Err(_) => return Err(StoreError::InvalidBranchName(options.branch.clone())),
    }
    let sn = match find_spec_node(graph, &options.spec) {
        Some(n) => n,
        None => return Err(StoreError::SpecNotFound(options.spec.clone())),
    };
    let branch_id = node_id("git_branch", options.branch.as_str());
    let snapshot_id = node_id("graph_snapshot", state_hash.as_str());
    let mut ba: Vec<(String, JsonValue)> = Vec::new();
    assert(crate::model::json_fields_view(ba@) =~= Seq::empty());
    push_attr(&mut ba, "baseEventId", opt_text_value(last_event_id));
    push_attr(&mut ba, "baseEventSequence", duration_value(Some(last_sequence)));
    push_text(&mut ba, "baseSnapshotId", snapshot_id.as_str());
    push_text(&mut ba, "baseStateHash", state_hash.as_str());
    push_text(&mut ba, "createdBy", options.actor.as_str());
    push_text(&mut ba, "name", options.branch.as_str());
    push_text(&mut ba, "spec", options.spec.as_str());
    let mut bk = chars_of("git-branch:");
    append(&mut bk, &string_chars(&options.branch));
    let bn = Node { id: branch_id.clone(), stable_key: string_of(&bk), node_type: String::from_str("GitBranch"), attributes: ba };
    let ghost br = branch_record(options.branch@, options.spec@, options.actor@, state_hash@, last_sequence, opt_view(*last_event_id));
    assert(crate::model::json_fields_view(bn.attributes@) =~= br.attributes);
    let mut sa: Vec<(String, JsonValue)> = Vec::new();
    assert(crate::model::json_fields_view(sa@) =~= Seq::empty());
    push_attr(&mut sa, "eventId", opt_text_value(last_event_id));
    push_attr(&mut sa, "eventSequence", duration_value(Some(last_sequence)));
    push_text(&mut sa, "snapshotId", snapshot_id.as_str());
    push_text(&mut sa, "stateHash", state_hash.as_str());
    let mut sk = chars_of("graph-snapshot:");
    append(&mut sk, &string_chars(state_hash));
    let snode = Node { id: snapshot_id.clone(), stable_key: string_of(&sk), node_type: String::from_str("GraphSnapshot"), attributes: sa };
    let ghost sn2 = snapshot_record(state_hash@, last_sequence, opt_view(*last_event_id));
    assert(crate::model::json_fields_view(snode.attributes@) =~= sn2.attributes);
    let e1 = make_spec_edge(sn.id.as_str(), "BOUND_TO_BRANCH", branch_id.as_str());
    let e2 = make_spec_edge(branch_id.as_str(), "STARTS_FROM_SNAPSHOT", snapshot_id.as_str());
    let mut d = GraphDelta::empty();
    d.create_nodes.push(bn);
    d.create_nodes.push(snode);
    d.create_edges.push(e1);
    d.create_edges.push(e2);
    assert(views(d.create_nodes@) =~= seq![br, sn2]);
    assert(views(d.create_edges@) =~= seq![spec_edge(sn.id@, "BOUND_TO_BRANCH"@, br.id), spec_edge(br.id, "STARTS_FROM_SNAPSHOT"@, sn2.id)]);
    let m = BranchMetadata {
        schema_version: String::from_str("specgraph.branch-metadata/v1"),
        branch: options.branch.clone(),
        spec: options.spec.clone(),
        graph_branch: options.graph_branch.clone(),
        base_snapshot_id: snapshot_id,
        base_state_hash: state_hash.clone(),
        base_event_sequence: last_sequence,
        base_event_id: last_event_id.clone(),
        created_by: options.actor.clone(),
    };
    Ok((d, m))
}


// ------------------------------------------------------------ approvals and waivers

/// The approver's `et` edge to the evidence node `id`, unless the graph
/// has that edge.
pub open spec fn evidence_edge(em: Map<Seq<char>, EdgeV>, approver: Seq<char>, et: Seq<char>, id: Seq<char>) -> Seq<EdgeV> {
    let e = spec_edge(approver, et, id);
    if em.contains_key(e.id) {
        Seq::empty()
    } else {
        seq![e]
    }
}

/// What recording evidence by an approver creates: the evidence node, and
/// the approver's edge to it (see `evidence_edge`).
pub open spec fn evidence_delta(em: Map<Seq<char>, EdgeV>, approver: Seq<char>, et: Seq<char>, n: NodeV) -> (
    Seq<NodeV>,
    Seq<EdgeV>,
) {
    (seq![n], evidence_edge(em, approver, et, n.id))
}

fn evidence_edges(graph: &Graph, approver: &String, et: &str, id: &String) -> (r: Vec<Edge>)
    ensures
        views(r@) == evidence_edge(graph.edge_map(), approver@, et@, id@),
{
    let e = make_spec_edge(approver.as_str(), et, id.as_str());
    let mut out: Vec<Edge> = Vec::new();
    if graph.edge(e.id.as_str()).is_none() {
        out.push(e);
    }
    assert(views(out@) =~= evidence_edge(graph.edge_map(), approver@, et@, id@));
    out
}

/// The delta that records an approval: refused where its id or name is
/// blank, where no Actor node answers to the approver, or where the
/// approver's roles and permissions give no authority to approve (see
/// `authority`); else the Approval node and the approver's `HAS_APPROVAL`
/// edge (see `evidence_delta`).
pub fn record_approval_delta(
    graph: &Graph,
    options: &RecordApprovalOptions,
    approver_roles: &Vec<String>,
    approver_permissions: &Vec<String>,
) -> (r: Result<GraphDelta, StoreError>)
    ensures
        trim(options.approval_id@).len() == 0 || trim(options.approval@).len() == 0 ==> r matches Err(
            StoreError::EmptyEvidenceId,
        ),
        !(trim(options.approval_id@).len() == 0 || trim(options.approval@).len() == 0) ==> match first_actor(
            graph.node_seq(),
            options.approved_by@,
        ) {
            None => r matches Err(StoreError::ActorNotFound(a)) && a@ == options.approved_by@,
            Some(ap) => if !authority(
                strings_view(approver_roles@),
                strings_view(approver_permissions@),
                opt_view(options.policy),
                opt_view(options.scope),
                ApprovalAuthorityAction::Approve,
            ) {
                r matches Err(StoreError::ApprovalAuthorityFailed(m)) && m@ == authority_message(
                    options.approved_by@,
                    opt_view(options.policy),
                    ApprovalAuthorityAction::Approve,
                )
            } else {
                r matches Ok(d) && creates_only(
                    d,
                    evidence_delta(graph.edge_map(), ap.id, "HAS_APPROVAL"@, approval_record(*options)).0,
                    evidence_delta(graph.edge_map(), ap.id, "HAS_APPROVAL"@, approval_record(*options)).1,
                )
            },
        },
{
    if trim_exec(&string_chars(&options.approval_id)).len() == 0 || trim_exec(&string_chars(&options.approval)).len()
        == 0 {
        return Err(StoreError::EmptyEvidenceId);
    }
    let approver = match find_actor_node_id(graph, options.approved_by.as_str()) {
        Some(id) => id,
        None => return Err(StoreError::ActorNotFound(options.approved_by.clone())),
    };
    match ensure_approval_authority(
        approver_roles,
        approver_permissions,
        options.approved_by.as_str(),
        &options.policy,
        &options.scope,
        ApprovalAuthorityAction::Approve,
    ) {
        Ok(()) => {},
        Err(e) => return Err(e),
    }
    let n = approval_node(options);
    let edges = evidence_edges(graph, &approver, "HAS_APPROVAL", &n.id);
    let mut d = GraphDelta::empty();
    d.create_nodes.push(n);
    d.create_edges = edges;
    assert(views(d.create_nodes@) =~= seq![approval_record(*options)]);
    Ok(d)
}

/// The delta that records a waiver: refused where its id or policy is
/// blank, where no Actor node answers to the approver, or where the
/// approver's roles and permissions give no authority to waive (see
/// `authority`); else the Waiver node and the approver's `HAS_WAIVER` edge
/// (see `evidence_delta`). The waiver's policy and expiry are checked
/// before (see `check_waiver_request_at`).
pub fn create_waiver_delta(
    graph: &Graph,
    options: &CreateWaiverOptions,
    approver_roles: &Vec<String>,
    approver_permissions: &Vec<String>,
) -> (r: Result<GraphDelta, StoreError>)
    ensures
        trim(options.waiver_id@).len() == 0 || trim(options.policy@).len() == 0 ==> r matches Err(
            StoreError::EmptyEvidenceId,
        ),
        !(trim(options.waiver_id@).len() == 0 || trim(options.policy@).len() == 0) ==> match first_actor(
            graph.node_seq(),
            options.approved_by@,
        ) {
            None => r matches Err(StoreError::ActorNotFound(a)) && a@ == options.approved_by@,
            Some(ap) => if !authority(
                strings_view(approver_roles@),
                strings_view(approver_permissions@),
                Some(options.policy@),
                opt_view(options.scope),
                ApprovalAuthorityAction::Waive,
            ) {
                r matches Err(StoreError::ApprovalAuthorityFailed(m)) && m@ == authority_message(
                    options.approved_by@,
                    Some(options.policy@),
                    ApprovalAuthorityAction::Waive,
                )
            } else {
                r matches Ok(d) && creates_only(
                    d,
                    evidence_delta(graph.edge_map(), ap.id, "HAS_WAIVER"@, waiver_record(*options)).0,
                    evidence_delta(graph.edge_map(), ap.id, "HAS_WAIVER"@, waiver_record(*options)).1,
                )
            },
        },
{
    if trim_exec(&string_chars(&options.waiver_id)).len() == 0 || trim_exec(&string_chars(&options.policy)).len() == 0 {
        return Err(StoreError::EmptyEvidenceId);
    }
    let approver = match find_actor_node_id(graph, options.approved_by.as_str()) {
        Some(id) => id,
        None => return Err(StoreError::ActorNotFound(options.approved_by.clone())),
    };
    let policy = Some(options.policy.clone());
    match ensure_approval_authority(
        approver_roles,
        approver_permissions,
        options.approved_by.as_str(),
        &policy,
        &options.scope,
        ApprovalAuthorityAction::Waive,
    ) {
        Ok(()) => {},
        Err(e) => return Err(e),
    }
    let n = waiver_node(options);
    let edges = evidence_edges(graph, &approver, "HAS_WAIVER", &n.id);
    let mut d = GraphDelta::empty();
    d.create_nodes.push(n);
    d.create_edges = edges;
    assert(views(d.create_nodes@) =~= seq![waiver_record(*options)]);
    Ok(d)
}

/// Whether a waiver request may be created at time `now`: its policy is not
/// one that may never be waived, and an expiry, where given, parses as
/// RFC 3339 and lies after `now`.
pub open spec fn waiver_request_ok(
    policy: Seq<char>,
    expires_at: Option<Seq<char>>,
    non_waivable: Seq<Seq<char>>,
    now: i128,
) -> bool {
    !non_waivable.contains(policy) && match expires_at {
        None => true,
        Some(e) => match rfc3339_parse(e) {
            Ok(t) => t > now,
            Err(_) => false,
        },
    }
}

/// Checks a waiver request at time `now` against the policies that may
/// never be waived (see `waiver_request_ok`); a refusal counts one policy
/// finding.
pub fn check_waiver_request_at(options: &CreateWaiverOptions, non_waivable: &Vec<String>, now: i128) -> (r: Result<
    (),
    StoreError,
>)
    ensures
        waiver_request_ok(options.policy@, opt_view(options.expires_at), strings_view(non_waivable@), now) ==> r is Ok,
        !waiver_request_ok(options.policy@, opt_view(options.expires_at), strings_view(non_waivable@), now) ==> (r matches Err(
            StoreError::PolicyValidationFailed(c),
        ) && c == 1),
{
    if contains_string(non_waivable, options.policy.as_str()) {
        return Err(StoreError::PolicyValidationFailed(1));
    }
    match &options.expires_at {
        Some(e) => match parse_rfc3339(e.as_str()) {
            Ok(t) => {
                if t <= now {
                    return Err(StoreError::PolicyValidationFailed(1));
                }
            },
            Err(_) => return Err(StoreError::PolicyValidationFailed(1)),
        },
        None => {},
    }
    Ok(())
}

/// Checks a waiver request at the clock's current time (see
/// `check_waiver_request_at`).
pub fn check_waiver_request(options: &CreateWaiverOptions, non_waivable: &Vec<String>) -> (r: Result<(), StoreError>)
    ensures
        exists|now: i128|
            {
                &&& waiver_request_ok(options.policy@, opt_view(options.expires_at), strings_view(non_waivable@), now)
                    ==> r is Ok
                &&& !waiver_request_ok(options.policy@, opt_view(options.expires_at), strings_view(non_waivable@), now)
                    ==> (r matches Err(StoreError::PolicyValidationFailed(c)) && c == 1)
            },
{
    let now = now_unix_nanos();
    check_waiver_request_at(options, non_waivable, now)
}


// ------------------------------------------------------------ policy reports

pub open spec fn effect_text(e: PolicyEffect) -> Seq<char> {
    match e {
        PolicyEffect::Allow => "Allow"@,
        PolicyEffect::Warn => "Warn"@,
        PolicyEffect::Deny => "Deny"@,
        PolicyEffect::RequireApproval => "RequireApproval"@,
    }
}

fn effect_str(e: PolicyEffect) -> (r: &'static str)
    ensures
        r@ == effect_text(e),
{
    match e {
        PolicyEffect::Allow => "Allow",
        PolicyEffect::Warn => "Warn",
        PolicyEffect::Deny => "Deny",
        PolicyEffect::RequireApproval => "RequireApproval",
    }
}

/// `<run>/<index>-<policy>`: what tells a recorded decision apart.
pub open spec fn decision_key(run: Seq<char>, i: nat, policy: Seq<char>) -> Seq<char> {
    run + "/"@ + decimal_text(i) + "-"@ + policy
}

/// The PolicyDecision node of the report's decision `i`.
pub open spec fn decision_record(o: RecordPolicyReportOptions, i: int) -> NodeV {
    let d = decision_view(o.report.decisions@[i]);
    let key = decision_key(o.policy_run_id@, i as nat, d.0);
    NodeV {
        id: spec_node_id("policy_decision"@, key),
        stable_key: "policy-decision:"@ + key,
        node_type: "PolicyDecision"@,
        attributes: seq![
            ("actor"@, JsonV::Text(o.actor@)),
            ("blockingFindingCount"@, duration_json(Some(error_count(o.report.findings@) as u64))),
            ("changedFiles"@, JsonV::Array(texts(strings_view(o.changed_files@)))),
            ("checkedOperation"@, JsonV::Text(o.checked_operation@)),
            ("effect"@, JsonV::Text(effect_text(d.1))),
            ("findingCount"@, duration_json(Some(o.report.findings@.len() as u64))),
            ("index"@, duration_json(Some(i as u64))),
            ("message"@, JsonV::Text(d.2)),
            ("policy"@, JsonV::Text(d.0)),
            ("policyRunId"@, JsonV::Text(o.policy_run_id@)),
        ],
    }
}

pub open spec fn decision_records(o: RecordPolicyReportOptions, n: int) -> Seq<NodeV> {
    Seq::new(n as nat, |i: int| decision_record(o, i))
}

pub open spec fn decision_edges(o: RecordPolicyReportOptions, project: Seq<char>, n: int) -> Seq<EdgeV> {
    Seq::new(n as nat, |i: int| spec_edge(project, "HAS_POLICY_DECISION"@, decision_record(o, i).id))
}

/// The delta that records a policy report: refused where the run id is
/// blank or where the graph has no Project node; else a PolicyDecision node
/// per decision, in order, each linked from the first Project node.
pub fn record_policy_report_delta(graph: &Graph, options: &RecordPolicyReportOptions) -> (r: Result<GraphDelta, StoreError>)
    ensures
        trim(options.policy_run_id@).len() == 0 ==> r matches Err(StoreError::EmptyEvidenceId),
        trim(options.policy_run_id@).len() != 0 ==> match first_of_type(graph.node_seq(), "Project"@) {
            None => r matches Err(StoreError::ProjectNotFound),
            Some(p) => r matches Ok(d) && creates_only(
                d,
                decision_records(*options, options.report.decisions@.len() as int),
                decision_edges(*options, p.id, options.report.decisions@.len() as int),
            ),
        },
{
    if trim_exec(&string_chars(&options.policy_run_id)).len() == 0 {
        return Err(StoreError::EmptyEvidenceId);
    }
    let project = match first_node_of_type(graph, "Project") {
        Some(p) => p.id.clone(),
        None => return Err(StoreError::ProjectNotFound),
    };
    let blocking = policy_error_count(&options.report);
    let finding_count = options.report.findings.len();
    let mut nodes: Vec<Node> = Vec::new();
    let mut edges: Vec<Edge> = Vec::new();
    let ds = &options.report.decisions;
    let mut i: usize = 0;
    assert(views(nodes@) =~= decision_records(*options, 0));
    assert(views(edges@) =~= decision_edges(*options, project@, 0));
    while i < ds.len()
        invariant
            i <= ds@.len(),
            ds == &options.report.decisions,
            blocking == error_count(options.report.findings@),
            finding_count == options.report.findings@.len(),
            views(nodes@) == decision_records(*options, i as int),
            views(edges@) == decision_edges(*options, project@, i as int),
        decreases ds@.len() - i,
    {
        let dec = &ds[i];
        let mut key = string_chars(&options.policy_run_id);
        append_str(&mut key, "/");
        push_decimal(&mut key, i as u64);
        append_str(&mut key, "-");
        append(&mut key, &string_chars(&dec.policy));
        let key_s = string_of(&key);
        let id = node_id("policy_decision", key_s.as_str());
        let mut sk = chars_of("policy-decision:");
        append(&mut sk, &key);
        let mut a: Vec<(String, JsonValue)> = Vec::new();
        assert(crate::model::json_fields_view(a@) =~= Seq::empty());
        push_text(&mut a, "actor", options.actor.as_str());
        push_attr(&mut a, "blockingFindingCount", duration_value(Some(blocking as u64)));
        push_attr(&mut a, "changedFiles", text_array(&options.changed_files));
        push_text(&mut a, "checkedOperation", options.checked_operation.as_str());
        push_text(&mut a, "effect", effect_str(dec.effect));
        push_attr(&mut a, "findingCount", duration_value(Some(finding_count as u64)));
        push_attr(&mut a, "index", duration_value(Some(i as u64)));
        push_text(&mut a, "message", dec.message.as_str());
        push_text(&mut a, "policy", dec.policy.as_str());
        push_text(&mut a, "policyRunId", options.policy_run_id.as_str());
        let n = Node { id, stable_key: string_of(&sk), node_type: String::from_str("PolicyDecision"), attributes: a };
        let ghost rec = decision_record(*options, i as int);
        assert(decision_view(options.report.decisions@[i as int]) == (dec.policy@, dec.effect, dec.message@));
        assert(crate::model::json_fields_view(n.attributes@) =~= rec.attributes);
        assert(n@ == rec);
        let e = make_spec_edge(project.as_str(), "HAS_POLICY_DECISION", n.id.as_str());
        let ghost pn = views(nodes@);
        let ghost pe = views(edges@);
        let ghost ev = e@;
        assert(ev == spec_edge(project@, "HAS_POLICY_DECISION"@, rec.id));
        nodes.push(n);
        edges.push(e);
        assert(views(nodes@) =~= pn.push(rec));
        assert(views(edges@) =~= pe.push(ev));
        assert(decision_records(*options, i + 1) =~= decision_records(*options, i as int).push(rec));
        assert(decision_edges(*options, project@, i + 1) =~= decision_edges(*options, project@, i as int).push(ev));
        assert(views(nodes@) =~= decision_records(*options, i + 1));
        assert(views(edges@) =~= decision_edges(*options, project@, i + 1));
        i = i + 1;
    }
    let mut d = GraphDelta::empty();
    d.create_nodes = nodes;
    d.create_edges = edges;
    Ok(d)
}

// ------------------------------------------------------------ project

/// The Project node a new store starts with.
pub open spec fn project_record(name: Seq<char>, actor: Seq<char>) -> NodeV {
    NodeV {
        id: "node_project"@,
        stable_key: "project:"@ + name,
        node_type: "Project"@,
        attributes: seq![("createdBy"@, JsonV::Text(actor)), ("name"@, JsonV::Text(name))],
    }
}

/// The delta of a new store: its Project node.
pub fn project_init_delta(project_name: &str, actor: &str) -> (d: GraphDelta)
    ensures
        creates_only(d, seq![project_record(project_name@, actor@)], Seq::empty()),
{
    let mut a: Vec<(String, JsonValue)> = Vec::new();
    assert(crate::model::json_fields_view(a@) =~= Seq::empty());
    push_text(&mut a, "createdBy", actor);
    push_text(&mut a, "name", project_name);
    let mut key = chars_of("project:");
    append_str(&mut key, project_name);
    let n = Node {
        id: String::from_str("node_project"),
        stable_key: string_of(&key),
        node_type: String::from_str("Project"),
        attributes: a,
    };
    assert(crate::model::json_fields_view(n.attributes@) =~= project_record(project_name@, actor@).attributes);
    let mut d = GraphDelta::empty();
    d.create_nodes.push(n);
    assert(views(d.create_nodes@) =~= seq![project_record(project_name@, actor@)]);
    assert(views(d.create_edges@) =~= Seq::<EdgeV>::empty());
    d
}


// ------------------------------------------------------------ event log

/// One entry of the event log: an applied operation, its place in the
/// chain, and the state hashes around it.
#[derive(Debug)]
pub struct Event {
    pub schema_version: String,
    pub event_id: String,
    pub sequence: u64,
    pub previous_event_id: Option<String>,
    pub operation_id: String,
    pub operation: String,
    pub actor: String,
    pub timestamp: String,
    pub ontology_version: String,
    pub graph_branch: String,
    pub pre_state_hash: String,
    pub post_state_hash: String,
    pub delta: GraphDelta,
    pub signatures: Vec<String>,
}

/// A stored copy of the graph at one event of the log.
#[derive(Debug)]
pub struct Snapshot {
    pub snapshot_id: String,
    pub graph_branch: String,
    pub event_sequence: u64,
    pub state_hash: String,
    pub ontology_locks: Vec<(String, String)>,
    pub nodes: Vec<Node>,
    pub edges: Vec<Edge>,
}

/// The graph a replay of the event log ends with.
#[derive(Debug)]
pub struct ReplayReport {
    pub graph: Graph,
    pub state_hash: String,
    pub events_replayed: usize,
    pub last_sequence: u64,
    pub last_event_id: Option<String>,
}

/// An operation to append to the event log.
#[derive(Debug)]
pub struct AppendOperationOptions {
    pub operation: String,
    pub actor: String,
    pub graph_branch: String,
    pub input: JsonValue,
    pub delta: GraphDelta,
    pub dry_run: bool,
}

/// Whether an event of `path` follows the chain read so far: it carries
/// the expected sequence number, then it names the previous event. The
/// first break refuses the event.
pub fn check_event_link(path: &String, expected_sequence: u64, previous_event_id: &Option<String>, event: &Event) -> (r:
    Result<(), StoreError>)
    ensures
        event.sequence != expected_sequence ==> (r matches Err(StoreError::SequenceMismatch { path: p, expected, actual })
            && p@ == path@ && expected == expected_sequence && actual == event.sequence),
        event.sequence == expected_sequence && opt_view(event.previous_event_id) != opt_view(*previous_event_id) ==> (
        r matches Err(StoreError::EventChainMismatch { path: p, expected, actual }) && p@ == path@ && opt_view(expected)
            == opt_view(*previous_event_id) && opt_view(actual) == opt_view(event.previous_event_id)),
        event.sequence == expected_sequence && opt_view(event.previous_event_id) == opt_view(*previous_event_id)
            ==> r is Ok,
{
    if event.sequence != expected_sequence {
        return Err(StoreError::SequenceMismatch { path: path.clone(), expected: expected_sequence, actual: event.sequence });
    }
    let same = match (&event.previous_event_id, previous_event_id) {
        (Some(a), Some(b)) => crate::text::eq_chars(&string_chars(a), &string_chars(b)),
        (None, None) => true,
        _ => false,
    };
    if !same {
        return Err(StoreError::EventChainMismatch {
            path: path.clone(),
            expected: previous_event_id.clone(),
            actual: event.previous_event_id.clone(),
        });
    }
    Ok(())
}


// ------------------------------------------------------------ laws

/// How many nodes have type `t`.
pub open spec fn count_type(ns: Seq<NodeV>, t: Seq<char>) -> nat
    decreases ns.len(),
{
    if ns.len() == 0 {
        0
    } else {
        count_type(ns.drop_last(), t) + if ns.last().node_type == t {
            1nat
        } else {
            0nat
        }
    }
}

proof fn lemma_count_type_append(a: Seq<NodeV>, b: Seq<NodeV>, t: Seq<char>)
    ensures
        count_type(a + b, t) == count_type(a, t) + count_type(b, t),
    decreases b.len(),
{
    if b.len() == 0 {
        assert(a + b =~= a);
    } else {
        lemma_count_type_append(a, b.drop_last(), t);
        assert((a + b).drop_last() =~= a + b.drop_last());
    }
}

proof fn lemma_type_names_differ()
    ensures
        "ActionGroup"@ != "ActionNode"@,
        "ActionGroup"@ != "CommitPlan"@,
        "ActionNode"@ != "CommitPlan"@,
        "ActionGraph"@ != "ActionNode"@,
        "ActionGraph"@ != "CommitPlan"@,
        "ActionGraph"@ != "ActionGroup"@,
{
    reveal_strlit("ActionGroup");
    reveal_strlit("ActionNode");
    reveal_strlit("CommitPlan");
    reveal_strlit("ActionGraph");
    assert("ActionNode"@[0] != "CommitPlan"@[0]);
    assert("ActionGraph"@[8] != "ActionGroup"@[8]);
    assert("ActionGroup"@.len() != "ActionNode"@.len());
    assert("ActionGraph"@[0] != "CommitPlan"@[0]);
    assert("ActionGroup"@[0] != "CommitPlan"@[0]);
    assert("ActionGraph"@.len() != "ActionNode"@.len());
}

proof fn lemma_count_three(s: Seq<NodeV>, t: Seq<char>)
    requires
        s.len() == 3,
    ensures
        count_type(s, t) == (if s[0].node_type == t { 1nat } else { 0nat }) + (if s[1].node_type == t { 1nat } else { 0nat })
            + (if s[2].node_type == t { 1nat } else { 0nat }),
{
    let s2 = s.drop_last();
    let s1 = s2.drop_last();
    let s0 = s1.drop_last();
    assert(s0 =~= Seq::<NodeV>::empty());
    assert(s1.last() == s[0]);
    assert(s2.last() == s[1]);
    assert(s.last() == s[2]);
    assert(count_type(s0, t) == 0);
    assert(count_type(s1, t) == (if s[0].node_type == t { 1nat } else { 0nat }));
    assert(count_type(s2, t) == count_type(s1, t) + (if s[1].node_type == t { 1nat } else { 0nat }));
}

proof fn lemma_templates_shape(spec: Seq<char>, ts: Seq<TemplateV>)
    ensures
        count_type(templates_nodes(spec, ts), "ActionGroup"@) == ts.len(),
        count_type(templates_nodes(spec, ts), "ActionNode"@) == ts.len(),
        count_type(templates_nodes(spec, ts), "CommitPlan"@) == ts.len(),
        count_type(templates_nodes(spec, ts), "ActionGraph"@) == 0,
        forall|k: int|
            0 <= k < ts.len() ==> {
                let key = #[trigger] group_key(spec, ts[k]);
                &&& templates_edges(spec, ts).contains(
                    spec_edge(spec_node_id("action_graph"@, spec), "HAS_ACTION_GROUP"@, spec_node_id("action_group"@, key)),
                )
                &&& templates_edges(spec, ts).contains(
                    spec_edge(spec_node_id("action_group"@, key), "HAS_ACTION"@, spec_node_id("action_node"@, key)),
                )
                &&& templates_edges(spec, ts).contains(
                    spec_edge(spec_node_id("action_group"@, key), "HAS_COMMIT_PLAN"@, spec_node_id("commit_plan"@, key)),
                )
            },
    decreases ts.len(),
{
    if ts.len() > 0 {
        let init = ts.drop_last();
        lemma_templates_shape(spec, init);
        let tn = crate::store::template_nodes(spec, ts.last());
        let te = crate::store::template_edges(spec, ts.last());
        reveal_strlit("ActionGroup");
        reveal_strlit("ActionNode");
        reveal_strlit("CommitPlan");
        reveal_strlit("ActionGraph");
        assert(templates_nodes(spec, ts) == templates_nodes(spec, init) + tn);
        assert(tn[0].node_type == "ActionGroup"@);
        assert(tn[1].node_type == "ActionNode"@);
        assert(tn[2].node_type == "CommitPlan"@);
        lemma_type_names_differ();
        lemma_count_three(tn, "ActionGroup"@);
        lemma_count_three(tn, "ActionNode"@);
        lemma_count_three(tn, "CommitPlan"@);
        lemma_count_three(tn, "ActionGraph"@);
        lemma_count_type_append(templates_nodes(spec, init), tn, "ActionGroup"@);
        lemma_count_type_append(templates_nodes(spec, init), tn, "ActionNode"@);
        lemma_count_type_append(templates_nodes(spec, init), tn, "CommitPlan"@);
        lemma_count_type_append(templates_nodes(spec, init), tn, "ActionGraph"@);
        let all = templates_edges(spec, ts);
        assert(all == templates_edges(spec, init) + te);
        assert forall|k: int| 0 <= k < ts.len() implies {
            let key = #[trigger] group_key(spec, ts[k]);
            &&& all.contains(spec_edge(spec_node_id("action_graph"@, spec), "HAS_ACTION_GROUP"@, spec_node_id("action_group"@, key)))
            &&& all.contains(spec_edge(spec_node_id("action_group"@, key), "HAS_ACTION"@, spec_node_id("action_node"@, key)))
            &&& all.contains(spec_edge(spec_node_id("action_group"@, key), "HAS_COMMIT_PLAN"@, spec_node_id("commit_plan"@, key)))
        } by {
            let key = group_key(spec, ts[k]);
            let ie = templates_edges(spec, init);
            if k < init.len() {
                assert(init[k] == ts[k]);
                assert(group_key(spec, init[k]) == key);
                let a = choose|j: int| 0 <= j < ie.len() && ie[j] == spec_edge(spec_node_id("action_graph"@, spec), "HAS_ACTION_GROUP"@, spec_node_id("action_group"@, key));
                let b = choose|j: int| 0 <= j < ie.len() && ie[j] == spec_edge(spec_node_id("action_group"@, key), "HAS_ACTION"@, spec_node_id("action_node"@, key));
                let c = choose|j: int| 0 <= j < ie.len() && ie[j] == spec_edge(spec_node_id("action_group"@, key), "HAS_COMMIT_PLAN"@, spec_node_id("commit_plan"@, key));
                assert(all[a] == ie[a]);
                assert(all[b] == ie[b]);
                assert(all[c] == ie[c]);
            } else {
                assert(ts[k] == ts.last());
                assert(all[ie.len() as int] == te[0]);
                assert(all[ie.len() as int + 1] == te[1]);
                assert(all[ie.len() as int + 2] == te[2]);
            }
        }
    }
}

/// A generated action graph holds one ActionGraph node and five
/// ActionGroups, five ActionNodes and five CommitPlans; each group of the
/// template table hangs off the action graph and holds its action and its
/// commit plan.
pub proof fn action_graph_template_shape(spec: Seq<char>, spec_node: Seq<char>)
    ensures
        count_type(action_graph_nodes(spec), "ActionGraph"@) == 1,
        count_type(action_graph_nodes(spec), "ActionGroup"@) == 5,
        count_type(action_graph_nodes(spec), "ActionNode"@) == 5,
        count_type(action_graph_nodes(spec), "CommitPlan"@) == 5,
        action_graph_edges(spec, spec_node).contains(spec_edge(spec_node, "HAS_ACTION_GRAPH"@, spec_node_id("action_graph"@, spec))),
        forall|k: int|
            0 <= k < 5 ==> {
                let key = #[trigger] group_key(spec, template_table()[k]);
                &&& action_graph_edges(spec, spec_node).contains(
                    spec_edge(spec_node_id("action_graph"@, spec), "HAS_ACTION_GROUP"@, spec_node_id("action_group"@, key)),
                )
                &&& action_graph_edges(spec, spec_node).contains(
                    spec_edge(spec_node_id("action_group"@, key), "HAS_ACTION"@, spec_node_id("action_node"@, key)),
                )
                &&& action_graph_edges(spec, spec_node).contains(
                    spec_edge(spec_node_id("action_group"@, key), "HAS_COMMIT_PLAN"@, spec_node_id("commit_plan"@, key)),
                )
            },
{
    let ts = template_table();
    lemma_templates_shape(spec, ts);
    let head = seq![action_graph_nodes(spec)[0]];
    assert(action_graph_nodes(spec) =~= head + templates_nodes(spec, ts));
    assert(head.drop_last() =~= Seq::<NodeV>::empty());
    assert(count_type(head.drop_last(), "ActionGraph"@) == 0);
    lemma_type_names_differ();
    assert(head.last().node_type == "ActionGraph"@);
    assert(ts.len() == 5);
    assert(count_type(head.drop_last(), "ActionGroup"@) == 0);
    assert(count_type(head.drop_last(), "ActionNode"@) == 0);
    assert(count_type(head.drop_last(), "CommitPlan"@) == 0);
    assert(count_type(head, "ActionGroup"@) == 0);
    assert(count_type(head, "ActionNode"@) == 0);
    assert(count_type(head, "CommitPlan"@) == 0);
    lemma_count_type_append(head, templates_nodes(spec, ts), "ActionGraph"@);
    lemma_count_type_append(head, templates_nodes(spec, ts), "ActionGroup"@);
    lemma_count_type_append(head, templates_nodes(spec, ts), "ActionNode"@);
    lemma_count_type_append(head, templates_nodes(spec, ts), "CommitPlan"@);
    let all = action_graph_edges(spec, spec_node);
    let te = templates_edges(spec, ts);
    assert(all[0] == spec_edge(spec_node, "HAS_ACTION_GRAPH"@, spec_node_id("action_graph"@, spec)));
    assert forall|k: int| 0 <= k < 5 implies {
        let key = #[trigger] group_key(spec, template_table()[k]);
        &&& all.contains(spec_edge(spec_node_id("action_graph"@, spec), "HAS_ACTION_GROUP"@, spec_node_id("action_group"@, key)))
        &&& all.contains(spec_edge(spec_node_id("action_group"@, key), "HAS_ACTION"@, spec_node_id("action_node"@, key)))
        &&& all.contains(spec_edge(spec_node_id("action_group"@, key), "HAS_COMMIT_PLAN"@, spec_node_id("commit_plan"@, key)))
    } by {
        let key = group_key(spec, ts[k]);
        let a = choose|j: int| 0 <= j < te.len() && te[j] == spec_edge(spec_node_id("action_graph"@, spec), "HAS_ACTION_GROUP"@, spec_node_id("action_group"@, key));
        let b = choose|j: int| 0 <= j < te.len() && te[j] == spec_edge(spec_node_id("action_group"@, key), "HAS_ACTION"@, spec_node_id("action_node"@, key));
        let c = choose|j: int| 0 <= j < te.len() && te[j] == spec_edge(spec_node_id("action_group"@, key), "HAS_COMMIT_PLAN"@, spec_node_id("commit_plan"@, key));
        assert(all[a + 1] == te[a]);
        assert(all[b + 1] == te[b]);
        assert(all[c + 1] == te[c]);
    }
}

/// What a spec's status lists as blocking its next state is exactly what
/// refuses the move to that state.
pub proof fn status_blockers_are_transition_blockers(
    nm: Map<Seq<char>, NodeV>,
    ns: Seq<NodeV>,
    es: Seq<EdgeV>,
    n: NodeV,
    next: Seq<char>,
)
    requires
        spec_successor(recorded_state(n)) == Some(next),
    ensures
        next_blockers(nm, ns, es, n.id, recorded_state(n)) == spec_blockers(nm, ns, es, n.id, next),
        next_states(recorded_state(n)) == seq![next],
{
}


/// A status names at most one next state: the lifecycle successor of the
/// recorded state (Draft, Validated, Planned, BranchBound, Implementing,
/// Review, then Released, which has none). Where there is no next state there
/// are no blockers.
pub proof fn status_follows_the_lifecycle(
    nm: Map<Seq<char>, NodeV>,
    ns: Seq<NodeV>,
    es: Seq<EdgeV>,
    n: NodeV,
)
    ensures
        next_states(recorded_state(n)).len() <= 1,
        next_states(recorded_state(n)).len() == 0 ==> next_blockers(nm, ns, es, n.id, recorded_state(n)).len() == 0,
        recorded_state(n) == "Draft"@ ==> next_states(recorded_state(n)) == seq!["Validated"@],
        recorded_state(n) == "Validated"@ ==> next_states(recorded_state(n)) == seq!["Planned"@],
        recorded_state(n) == "Planned"@ ==> next_states(recorded_state(n)) == seq!["BranchBound"@],
        recorded_state(n) == "BranchBound"@ ==> next_states(recorded_state(n)) == seq!["Implementing"@],
        recorded_state(n) == "Implementing"@ ==> next_states(recorded_state(n)) == seq!["Review"@],
        recorded_state(n) == "Review"@ ==> next_states(recorded_state(n)) == seq!["Released"@],
        recorded_state(n) == "Released"@ ==> next_states(recorded_state(n)).len() == 0,
{
    reveal_strlit("Draft");
    reveal_strlit("Validated");
    reveal_strlit("Planned");
    reveal_strlit("BranchBound");
    reveal_strlit("Implementing");
    reveal_strlit("Review");
    reveal_strlit("Released");
    assert("Draft"@.len() == 5 && "Validated"@.len() == 9 && "Planned"@.len() == 7);
    assert("BranchBound"@.len() == 11 && "Implementing"@.len() == 12);
    assert("Review"@.len() == 6 && "Released"@.len() == 8);
}

pub open spec fn permission_edge(role: Seq<char>, p: Seq<char>) -> EdgeV {
    spec_edge(spec_node_id("role"@, role), "GRANTS_PERMISSION"@, spec_node_id("permission"@, p))
}

proof fn lemma_grant_covers(
    nm: Map<Seq<char>, NodeV>,
    em: Map<Seq<char>, EdgeV>,
    role: Seq<char>,
    perms: Seq<Seq<char>>,
    n0: Seq<NodeV>,
    e0: Seq<EdgeV>,
)
    ensures
        ({
            let r = grant_additions(nm, em, role, perms, n0, e0);
            &&& forall|k: Seq<char>| has_key::<Node>(n0, k) ==> #[trigger] has_key::<Node>(r.0, k)
            &&& forall|k: Seq<char>| has_key::<Edge>(e0, k) ==> #[trigger] has_key::<Edge>(r.1, k)
            &&& forall|i: int|
                0 <= i < perms.len() ==> nm.contains_key(spec_node_id("permission"@, #[trigger] perms[i])) || has_key::<Node>(
                    r.0,
                    spec_node_id("permission"@, perms[i]),
                )
            &&& forall|i: int|
                0 <= i < perms.len() ==> em.contains_key(permission_edge(role, #[trigger] perms[i]).id) || has_key::<
                    Edge,
                >(r.1, permission_edge(role, perms[i]).id)
        }),
    decreases perms.len(),
{
    if perms.len() > 0 {
        let init = perms.drop_last();
        lemma_grant_covers(nm, em, role, init, n0, e0);
        let (ns, es) = grant_additions(nm, em, role, init, n0, e0);
        let r = grant_additions(nm, em, role, perms, n0, e0);
        let p = perms.last();
        let pid = spec_node_id("permission"@, p);
        let pe = permission_edge(role, p);
        assert forall|k: Seq<char>| has_key::<Node>(ns, k) implies #[trigger] has_key::<Node>(r.0, k) by {
            let i = choose|i: int| 0 <= i < ns.len() && Node::view_key(#[trigger] ns[i]) == k;
            assert(r.0[i] == ns[i]);
        }
        assert forall|k: Seq<char>| has_key::<Edge>(es, k) implies #[trigger] has_key::<Edge>(r.1, k) by {
            let i = choose|i: int| 0 <= i < es.len() && Edge::view_key(#[trigger] es[i]) == k;
            assert(r.1[i] == es[i]);
        }
        if !nm.contains_key(pid) && !node_ids(ns).contains(pid) {
            assert(r.0[ns.len() as int].id == pid);
            assert(Node::view_key(r.0[ns.len() as int]) == pid);
        } else if !nm.contains_key(pid) {
            let j = choose|j: int| 0 <= j < node_ids(ns).len() && node_ids(ns)[j] == pid;
            assert(Node::view_key(ns[j]) == pid);
        }
        if !em.contains_key(pe.id) && !edge_ids(es).contains(pe.id) {
            assert(Edge::view_key(r.1[es.len() as int]) == pe.id);
        } else if !em.contains_key(pe.id) {
            let j = choose|j: int| 0 <= j < edge_ids(es).len() && edge_ids(es)[j] == pe.id;
            assert(Edge::view_key(es[j]) == pe.id);
        }
        assert forall|i: int| 0 <= i < perms.len() implies nm.contains_key(spec_node_id("permission"@, #[trigger] perms[i]))
            || has_key::<Node>(r.0, spec_node_id("permission"@, perms[i])) by {
            if i < init.len() {
                assert(init[i] == perms[i]);
            }
        }
        assert forall|i: int| 0 <= i < perms.len() implies em.contains_key(permission_edge(role, #[trigger] perms[i]).id)
            || has_key::<Edge>(r.1, permission_edge(role, perms[i]).id) by {
            if i < init.len() {
                assert(init[i] == perms[i]);
            }
        }
    }
}

proof fn lemma_grant_adds_nothing(
    nm: Map<Seq<char>, NodeV>,
    em: Map<Seq<char>, EdgeV>,
    role: Seq<char>,
    perms: Seq<Seq<char>>,
    n0: Seq<NodeV>,
    e0: Seq<EdgeV>,
)
    requires
        forall|i: int| 0 <= i < perms.len() ==> nm.contains_key(spec_node_id("permission"@, #[trigger] perms[i])),
        forall|i: int| 0 <= i < perms.len() ==> em.contains_key(permission_edge(role, #[trigger] perms[i]).id),
    ensures
        grant_additions(nm, em, role, perms, n0, e0) == (n0, e0),
    decreases perms.len(),
{
    if perms.len() > 0 {
        let init = perms.drop_last();
        assert forall|i: int| 0 <= i < init.len() implies nm.contains_key(spec_node_id("permission"@, #[trigger] init[i])) by {
            assert(init[i] == perms[i]);
        }
        assert forall|i: int| 0 <= i < init.len() implies em.contains_key(permission_edge(role, #[trigger] init[i]).id) by {
            assert(init[i] == perms[i]);
        }
        lemma_grant_adds_nothing(nm, em, role, init, n0, e0);
        assert(nm.contains_key(spec_node_id("permission"@, perms[perms.len() - 1])));
        assert(em.contains_key(permission_edge(role, perms[perms.len() - 1]).id));
    }
}

/// Granting a role and its permissions a second time, once the first
/// grant's delta has been applied, creates nothing.
pub proof fn granting_twice_adds_nothing(
    nm: Map<Seq<char>, NodeV>,
    em: Map<Seq<char>, EdgeV>,
    actor: Seq<char>,
    role: Seq<char>,
    perms: Seq<Seq<char>>,
    d: GraphDelta,
)
    requires
        creates_only(d, grant_delta(nm, em, actor, role, perms).0, grant_delta(nm, em, actor, role, perms).1),
    ensures
        grant_delta(delta_nodes(nm, d), delta_edges(em, d), actor, role, perms) == (
            Seq::<NodeV>::empty(),
            Seq::<EdgeV>::empty(),
        ),
{
    let (ns, es) = grant_delta(nm, em, actor, role, perms);
    let rid = spec_node_id("role"@, role);
    let re = spec_edge(spec_node_id("actor"@, actor), "HAS_ROLE"@, rid);
    let n0: Seq<NodeV> = if nm.contains_key(rid) {
        Seq::empty()
    } else {
        seq![crate::store::named_record("role"@, "role"@, "Role"@, role)]
    };
    let e0: Seq<EdgeV> = if em.contains_key(re.id) {
        Seq::empty()
    } else {
        seq![re]
    };
    lemma_grant_covers(nm, em, role, perms, n0, e0);
    assert(strings_view(d.delete_nodes@) =~= Seq::<Seq<char>>::empty());
    assert(strings_view(d.delete_edges@) =~= Seq::<Seq<char>>::empty());
    assert(views(d.update_nodes@) =~= Seq::<NodeV>::empty());
    assert(views(d.update_edges@) =~= Seq::<EdgeV>::empty());
    let nm2 = delta_nodes(nm, d);
    let em2 = delta_edges(em, d);
    assert(nm2 == insert_keyed::<Node>(nm, ns));
    assert(em2 == insert_keyed::<Edge>(em, es));
    assert forall|k: Seq<char>| nm.contains_key(k) || has_key::<Node>(ns, k) implies nm2.contains_key(k) by {
        lemma_insert_keyed_dom::<Node>(nm, ns, k);
    }
    assert forall|k: Seq<char>| em.contains_key(k) || has_key::<Edge>(es, k) implies em2.contains_key(k) by {
        lemma_insert_keyed_dom::<Edge>(em, es, k);
    }
    assert(grant_additions(nm, em, role, perms, n0, e0) == (ns, es));
    if !nm.contains_key(rid) {
        assert(Node::view_key(n0[0]) == rid);
        assert(has_key::<Node>(n0, rid));
        assert(has_key::<Node>(ns, rid));
    }
    lemma_insert_keyed_dom::<Node>(nm, ns, rid);
    if !em.contains_key(re.id) {
        assert(Edge::view_key(e0[0]) == re.id);
        assert(has_key::<Edge>(e0, re.id));
        assert(has_key::<Edge>(es, re.id));
    }
    lemma_insert_keyed_dom::<Edge>(em, es, re.id);
    assert(nm2.contains_key(rid));
    assert(em2.contains_key(re.id));
    assert forall|i: int| 0 <= i < perms.len() implies nm2.contains_key(spec_node_id("permission"@, #[trigger] perms[i])) by {
        lemma_insert_keyed_dom::<Node>(nm, ns, spec_node_id("permission"@, perms[i]));
    }
    assert forall|i: int| 0 <= i < perms.len() implies em2.contains_key(permission_edge(role, #[trigger] perms[i]).id) by {
        lemma_insert_keyed_dom::<Edge>(em, es, permission_edge(role, perms[i]).id);
    }
    lemma_grant_adds_nothing(nm2, em2, role, perms, Seq::empty(), Seq::empty());
}


// ------------------------------------------------------------ replay

/// Where a replay of the event log stands: the sequence number the next
/// event must carry, how many events were applied, and the last one's id.
#[derive(Debug, Clone)]
pub struct ReplayCursor {
    pub expected_sequence: u64,
    pub events_replayed: usize,
    pub previous_event_id: Option<String>,
}

impl ReplayCursor {
    /// The cursor before the first event.
    pub fn start() -> (c: ReplayCursor)
        ensures
            c.expected_sequence == 1,
            c.events_replayed == 0,
            c.previous_event_id is None,
    {
        ReplayCursor { expected_sequence: 1, events_replayed: 0, previous_event_id: None }
    }

    /// The sequence number of the last event applied (0 before any).
    pub fn last_sequence(&self) -> (r: u64)
        ensures
            r == if self.expected_sequence == 0 {
                0
            } else {
                (self.expected_sequence - 1) as u64
            },
    {
        self.expected_sequence.saturating_sub(1)
    }
}

/// Whether an event lies beyond the sequence a replay stops at.
pub fn past_cut(max_sequence: Option<u64>, event: &Event) -> (r: bool)
    ensures
        r == (max_sequence matches Some(m) && event.sequence > m),
{
    match max_sequence {
        Some(m) => event.sequence > m,
        None => false,
    }
}

/// Checks an event of `path` before its delta is applied: it must follow
/// the chain (see `check_event_link`), then, where hashes are checked
/// (`actual_pre` holds the hash of the graph so far), its pre-state hash
/// must be that hash.
pub fn begin_event(cursor: &ReplayCursor, path: &String, event: &Event, actual_pre: &Option<String>) -> (r: Result<
    (),
    StoreError,
>)
    ensures
        event.sequence != cursor.expected_sequence ==> (r matches Err(StoreError::SequenceMismatch { path: p, expected, actual })
            && p@ == path@ && expected == cursor.expected_sequence && actual == event.sequence),
        event.sequence == cursor.expected_sequence && opt_view(event.previous_event_id) != opt_view(
            cursor.previous_event_id,
        ) ==> (r matches Err(StoreError::EventChainMismatch { path: p, expected, actual }) && p@ == path@ && opt_view(
            expected,
        ) == opt_view(cursor.previous_event_id) && opt_view(actual) == opt_view(event.previous_event_id)),
        event.sequence == cursor.expected_sequence && opt_view(event.previous_event_id) == opt_view(
            cursor.previous_event_id,
        ) ==> match actual_pre {
            Some(h) => if h@ != event.pre_state_hash@ {
                r matches Err(StoreError::PreStateHashMismatch { path: p, expected, actual }) && p@ == path@
                    && expected@ == event.pre_state_hash@ && actual@ == h@
            } else {
                r is Ok
            },
            None => r is Ok,
        },
{
    match check_event_link(path, cursor.expected_sequence, &cursor.previous_event_id, event) {
        Ok(()) => {},
        Err(e) => return Err(e),
    }
    match actual_pre {
        Some(h) => {
            if !crate::text::eq_chars(&string_chars(h), &string_chars(&event.pre_state_hash)) {
                return Err(StoreError::PreStateHashMismatch {
                    path: path.clone(),
                    expected: event.pre_state_hash.clone(),
                    actual: h.clone(),
                });
            }
        },
        None => {},
    }
    Ok(())
}

/// Finishes an event of `path` after its delta is applied: where hashes
/// are checked (`actual_post` holds the hash of the graph now), its
/// post-state hash must be that hash; then the cursor moves past it.
pub fn finish_event(cursor: &mut ReplayCursor, path: &String, event: &Event, actual_post: &Option<String>) -> (r: Result<
    (),
    StoreError,
>)
    requires
        old(cursor).expected_sequence < u64::MAX,
        old(cursor).events_replayed < usize::MAX,
    ensures
        match actual_post {
            Some(h) => h@ != event.post_state_hash@,
            None => false,
        } ==> (r matches Err(StoreError::PostStateHashMismatch { path: p, expected, actual }) && p@ == path@
            && expected@ == event.post_state_hash@ && Some(actual@) == opt_view(*actual_post)
            && final(cursor).expected_sequence == old(cursor).expected_sequence
            && final(cursor).events_replayed == old(cursor).events_replayed && opt_view(
            final(cursor).previous_event_id,
        ) == opt_view(old(cursor).previous_event_id)),
        !match actual_post {
            Some(h) => h@ != event.post_state_hash@,
            None => false,
        } ==> (r is Ok && final(cursor).expected_sequence == old(cursor).expected_sequence + 1
            && final(cursor).events_replayed == old(cursor).events_replayed + 1 && opt_view(
            final(cursor).previous_event_id,
        ) == Some(event.event_id@)),
{
    match actual_post {
        Some(h) => {
            if !crate::text::eq_chars(&string_chars(h), &string_chars(&event.post_state_hash)) {
                return Err(StoreError::PostStateHashMismatch {
                    path: path.clone(),
                    expected: event.post_state_hash.clone(),
                    actual: h.clone(),
                });
            }
        },
        None => {},
    }
    cursor.previous_event_id = Some(event.event_id.clone());
    cursor.expected_sequence = cursor.expected_sequence + 1;
    cursor.events_replayed = cursor.events_replayed + 1;
    Ok(())
}

} // verus!
