use specgraph::git::CommitValidationInput;
use specgraph::model::{Edge, FindingSeverity, Graph, GraphDelta, JsonValue, Node, OperationRequest};
use specgraph::model::OPERATION_REQUEST_SCHEMA_VERSION;
use specgraph::ontology::MvpOntology;
use specgraph::policy::{PolicyDecision, PolicyEffect, PolicyReport};
use specgraph::spec::{SpecProjection, TextItem};
use specgraph::store::{
    validate_spec_branch_name, action_graph_delta, ActionLifecycleOptions, BindBranchOptions, CreateWaiverOptions, GrantRoleOptions,
    RecordApprovalOptions, RecordPolicyReportOptions,
};
use specgraph::store_ops::{
    accepted_receipt, action_graph_summary, action_transition_delta, apply_operation_at, bind_branch_delta,
    check_event_link, check_waiver_request_at, create_waiver_delta, ensure_approval_authority, find_action_node,
    generate_action_graph_delta, grant_role_delta, has_approval_authority, operation_policy_input,
    project_init_delta, record_approval_delta, record_commit_delta, record_policy_report_delta, spec_status_summary,
    spec_transition_delta, ApprovalAuthorityAction, Event, StoreError,
};

fn text(value: &str) -> JsonValue {
    JsonValue::Text(value.to_string())
}

fn node(id: &str, stable_key: &str, node_type: &str, attributes: Vec<(&str, JsonValue)>) -> Node {
    Node {
        id: id.to_string(),
        stable_key: stable_key.to_string(),
        node_type: node_type.to_string(),
        attributes: attributes.into_iter().map(|(k, v)| (k.to_string(), v)).collect(),
    }
}

fn edge(id: &str, from: &str, edge_type: &str, to: &str) -> Edge {
    Edge {
        id: id.to_string(),
        stable_key: format!("edge:{from}:{edge_type}:{to}"),
        edge_type: edge_type.to_string(),
        from: from.to_string(),
        to: to.to_string(),
        attributes: Vec::new(),
    }
}

fn graph(nodes: Vec<Node>, edges: Vec<Edge>) -> Graph {
    let mut g = Graph::new();
    let mut delta = GraphDelta::empty();
    delta.create_nodes = nodes;
    delta.create_edges = edges;
    g.apply_delta(&delta);
    g
}

fn attr<'a>(n: &'a Node, key: &str) -> Option<&'a JsonValue> {
    n.attributes.iter().find(|(k, _)| k == key).map(|(_, v)| v)
}

fn attr_str<'a>(n: &'a Node, key: &str) -> Option<&'a str> {
    match attr(n, key) {
        Some(JsonValue::Text(t)) => Some(t.as_str()),
        _ => None,
    }
}

fn strings(items: &[&str]) -> Vec<String> {
    items.iter().map(|s| s.to_string()).collect()
}

fn spec_graph(state: &str) -> Graph {
    graph(
        vec![node(
            "node_spec_auth_001",
            "spec:AUTH-001",
            "Spec",
            vec![("spec", text("AUTH-001")), ("state", text(state))],
        )],
        vec![],
    )
}

fn request(operation: &str, input: JsonValue) -> OperationRequest {
    OperationRequest {
        schema_version: OPERATION_REQUEST_SCHEMA_VERSION.to_string(),
        operation_id: "op_1".to_string(),
        operation: operation.to_string(),
        actor: "local:admin".to_string(),
        timestamp: "2024-01-01T00:00:00Z".to_string(),
        ontology_version: "core@0.1.0".to_string(),
        graph_branch: "main".to_string(),
        dry_run: false,
        input,
    }
}

fn object(fields: Vec<(&str, JsonValue)>) -> JsonValue {
    JsonValue::Object(fields.into_iter().map(|(k, v)| (k.to_string(), v)).collect())
}

#[test]
fn spec_status_reports_state_next_state_and_blockers() {
    let g = spec_graph("BranchBound");
    let status = spec_status_summary(&g, &"AUTH-001".to_string()).unwrap();
    assert_eq!(status.spec, "AUTH-001");
    assert_eq!(status.state, "BranchBound");
    assert_eq!(status.next_states, strings(&["Implementing"]));
    assert_eq!(
        status.blockers,
        strings(&["spec must be bound to a Git branch", "spec must have an ActionGraph"])
    );
}

#[test]
fn spec_status_defaults_to_draft_and_refuses_unknown_spec() {
    let g = graph(vec![node("s", "spec:X", "Spec", vec![("spec", text("X"))])], vec![]);
    let status = spec_status_summary(&g, &"X".to_string()).unwrap();
    assert_eq!(status.state, "Draft");
    assert_eq!(status.next_states, strings(&["Validated"]));
    assert!(status.blockers.is_empty());
    let released = spec_status_summary(&spec_graph("Released"), &"AUTH-001".to_string()).unwrap();
    assert!(released.next_states.is_empty());
    assert!(matches!(spec_status_summary(&g, &"Y".to_string()), Err(StoreError::SpecNotFound(s)) if s == "Y"));
}

#[test]
fn spec_transition_updates_state_or_counts_blockers() {
    let g = spec_graph("Draft");
    let delta = spec_transition_delta(&g, &"AUTH-001".to_string(), &"Validated".to_string()).unwrap();
    assert_eq!(delta.update_nodes.len(), 1);
    assert!(delta.create_nodes.is_empty());
    assert_eq!(delta.update_nodes[0].id, "node_spec_auth_001");
    assert_eq!(attr_str(&delta.update_nodes[0], "state"), Some("Validated"));
    assert_eq!(attr_str(&delta.update_nodes[0], "spec"), Some("AUTH-001"));
    assert!(matches!(
        spec_transition_delta(&g, &"AUTH-001".to_string(), &"Released".to_string()),
        Err(StoreError::OperationValidationFailed(4))
    ));
    assert!(matches!(
        spec_transition_delta(&g, &"NOPE".to_string(), &"Validated".to_string()),
        Err(StoreError::SpecNotFound(_))
    ));
}

#[test]
fn generated_action_graph_lists_five_sorted_groups() {
    let mut g = spec_graph("Planned");
    let delta = generate_action_graph_delta(&g, &"AUTH-001".to_string()).unwrap();
    assert_eq!(delta.create_nodes.len(), 16);
    assert_eq!(delta.create_edges[0].from, "node_spec_auth_001");
    assert!(matches!(
        action_graph_summary(&g, &"AUTH-001".to_string()),
        Err(StoreError::ActionGraphNotFound(s)) if s == "AUTH-001"
    ));
    g.apply_delta(&delta);
    let summary = action_graph_summary(&g, &"AUTH-001".to_string()).unwrap();
    assert_eq!(summary.action_graph_id, "node_action_graph_auth_001");
    let names = summary.groups.iter().map(|g| g.name.as_str()).collect::<Vec<_>>();
    assert_eq!(names, vec!["graph", "implementation", "interface", "tests", "validation"]);
    assert!(summary.groups.iter().all(|g| g.action_count == 1 && g.commit_plan_count == 1));
    assert_eq!(summary.groups[0].id, "node_action_group_auth_001_graph");
    assert!(matches!(
        generate_action_graph_delta(&g, &"OTHER".to_string()),
        Err(StoreError::SpecNotFound(_))
    ));
}

#[test]
fn grant_role_creates_role_permissions_and_links_once() {
    let g = graph(vec![node("node_actor_local_alice", "actor:local:alice", "Actor", vec![])], vec![]);
    let options = GrantRoleOptions {
        actor_id: "local:alice".to_string(),
        role: "approver".to_string(),
        permissions: strings(&["policy.approve", "policy.approve"]),
        actor: "local:admin".to_string(),
        graph_branch: "main".to_string(),
    };
    let delta = grant_role_delta(&g, &options).unwrap();
    let ids = delta.create_nodes.iter().map(|n| n.id.as_str()).collect::<Vec<_>>();
    assert_eq!(ids, vec!["node_role_approver", "node_permission_policy_approve"]);
    let edges = delta.create_edges.iter().map(|e| e.id.as_str()).collect::<Vec<_>>();
    assert_eq!(
        edges,
        vec![
            "edge_node_actor_local_alice_has_role_node_role_approver",
            "edge_node_role_approver_grants_permission_node_permission_policy_approve",
        ]
    );
    let mut g2 = g;
    g2.apply_delta(&delta);
    let again = grant_role_delta(&g2, &options).unwrap();
    assert!(again.create_nodes.is_empty());
    assert!(again.create_edges.is_empty());
}

#[test]
fn grant_role_requires_registered_actor() {
    let options = GrantRoleOptions {
        actor_id: "local:ghost".to_string(),
        role: "admin".to_string(),
        permissions: vec![],
        actor: "local:admin".to_string(),
        graph_branch: "main".to_string(),
    };
    assert!(matches!(
        grant_role_delta(&Graph::new(), &options),
        Err(StoreError::ActorNotFound(a)) if a == "local:ghost"
    ));
}

#[test]
fn approval_authority_follows_roles_and_permissions() {
    let none = strings(&[]);
    let policy = Some("policy.data.migration_approval".to_string());
    assert!(has_approval_authority(&strings(&["maintainer"]), &none, &None, &None, ApprovalAuthorityAction::Waive));
    assert!(has_approval_authority(&strings(&["approver"]), &none, &None, &None, ApprovalAuthorityAction::Approve));
    assert!(!has_approval_authority(&strings(&["approver"]), &none, &None, &None, ApprovalAuthorityAction::Waive));
    assert!(has_approval_authority(&strings(&["data-approver"]), &none, &policy, &None, ApprovalAuthorityAction::Waive));
    assert!(has_approval_authority(
        &none,
        &strings(&["policy.approve.data-migration"]),
        &None,
        &Some("db/migrations/001.sql".to_string()),
        ApprovalAuthorityAction::Approve
    ));
    assert!(has_approval_authority(
        &none,
        &strings(&["policy.waive:policy.x"]),
        &Some("policy.x".to_string()),
        &None,
        ApprovalAuthorityAction::Waive
    ));
    assert!(!has_approval_authority(&strings(&["data-approver"]), &none, &None, &None, ApprovalAuthorityAction::Approve));
    let refused = ensure_approval_authority(&none, &none, "local:bob", &Some("policy.x".to_string()), &None, ApprovalAuthorityAction::Waive);
    assert!(matches!(
        refused,
        Err(StoreError::ApprovalAuthorityFailed(m)) if m == "actor `local:bob` lacks authority to waive policy evidence for `policy.x`"
    ));
    let refused = ensure_approval_authority(&none, &none, "local:bob", &None, &None, ApprovalAuthorityAction::Approve);
    assert!(matches!(
        refused,
        Err(StoreError::ApprovalAuthorityFailed(m)) if m == "actor `local:bob` lacks authority to approve policy evidence"
    ));
}

fn approval_options(id: &str, approved_by: &str) -> RecordApprovalOptions {
    RecordApprovalOptions {
        approval_id: id.to_string(),
        approval: "data-migration".to_string(),
        policy: Some("policy.data.migration_approval".to_string()),
        scope: None,
        reason: None,
        approved_by: approved_by.to_string(),
        actor: "local:admin".to_string(),
        graph_branch: "main".to_string(),
    }
}

#[test]
fn record_approval_links_approver_or_refuses() {
    let g = graph(vec![node("node_actor_local_alice", "actor:local:alice", "Actor", vec![])], vec![]);
    let roles = strings(&["approver"]);
    let none = strings(&[]);
    let delta = record_approval_delta(&g, &approval_options("APR-1", "local:alice"), &roles, &none).unwrap();
    assert_eq!(delta.create_nodes[0].id, "node_approval_apr_1");
    assert_eq!(delta.create_edges.len(), 1);
    assert_eq!(delta.create_edges[0].from, "node_actor_local_alice");
    assert_eq!(delta.create_edges[0].edge_type, "HAS_APPROVAL");
    assert!(matches!(
        record_approval_delta(&g, &approval_options("  ", "local:alice"), &roles, &none),
        Err(StoreError::EmptyEvidenceId)
    ));
    assert!(matches!(
        record_approval_delta(&g, &approval_options("APR-1", "local:bob"), &roles, &none),
        Err(StoreError::ActorNotFound(a)) if a == "local:bob"
    ));
    assert!(matches!(
        record_approval_delta(&g, &approval_options("APR-1", "local:alice"), &none, &none),
        Err(StoreError::ApprovalAuthorityFailed(_))
    ));
}

fn waiver_options(policy: &str, expires_at: Option<&str>) -> CreateWaiverOptions {
    CreateWaiverOptions {
        waiver_id: "waiver-1".to_string(),
        policy: policy.to_string(),
        reason: "Emergency".to_string(),
        approved_by: "local:security".to_string(),
        expires_at: expires_at.map(|e| e.to_string()),
        scope: None,
        actor: "local:admin".to_string(),
        graph_branch: "main".to_string(),
    }
}

#[test]
fn create_waiver_links_approver_with_waive_authority() {
    let g = graph(vec![node("node_actor_local_security", "actor:local:security", "Actor", vec![])], vec![]);
    let perms = strings(&["policy.waive"]);
    let none = strings(&[]);
    let delta = create_waiver_delta(&g, &waiver_options("policy.data.migration_approval", None), &none, &perms).unwrap();
    assert_eq!(delta.create_nodes[0].node_type, "Waiver");
    assert_eq!(delta.create_edges[0].edge_type, "HAS_WAIVER");
    assert!(matches!(
        create_waiver_delta(&g, &waiver_options("", None), &none, &perms),
        Err(StoreError::EmptyEvidenceId)
    ));
    assert!(matches!(
        create_waiver_delta(&g, &waiver_options("policy.x", None), &none, &none),
        Err(StoreError::ApprovalAuthorityFailed(_))
    ));
}

#[test]
fn waiver_request_rejects_non_waivable_expired_or_malformed() {
    let non_waivable = strings(&["policy.security.no_secret_files"]);
    let now: i128 = 1_700_000_000_000_000_000;
    assert!(matches!(
        check_waiver_request_at(&waiver_options("policy.security.no_secret_files", Some("2999-01-01T00:00:00Z")), &non_waivable, now),
        Err(StoreError::PolicyValidationFailed(1))
    ));
    assert!(matches!(
        check_waiver_request_at(&waiver_options("policy.x", Some("2000-01-01T00:00:00Z")), &non_waivable, now),
        Err(StoreError::PolicyValidationFailed(1))
    ));
    assert!(matches!(
        check_waiver_request_at(&waiver_options("policy.x", Some("tomorrow")), &non_waivable, now),
        Err(StoreError::PolicyValidationFailed(1))
    ));
    assert!(check_waiver_request_at(&waiver_options("policy.x", Some("2999-01-01T00:00:00Z")), &non_waivable, now).is_ok());
    assert!(check_waiver_request_at(&waiver_options("policy.x", None), &non_waivable, now).is_ok());
}

fn action_graph() -> Graph {
    graph(
        vec![
            node("node_a", "action-node:X/a", "ActionNode", vec![("name", text("Build")), ("state", text("Ready"))]),
            node("node_b", "action-node:X/b", "ActionNode", vec![("state", text("Completed"))]),
        ],
        vec![edge("ab", "node_a", "DEPENDS_ON", "node_b")],
    )
}

#[test]
fn action_transition_records_attempt_and_state() {
    let g = action_graph();
    assert_eq!(find_action_node(&g, &"Build".to_string()).map(|n| n.id.as_str()), Some("node_a"));
    assert_eq!(find_action_node(&g, &"node_b".to_string()).map(|n| n.id.as_str()), Some("node_b"));
    assert!(find_action_node(&g, &"Missing".to_string()).is_none());
    let delta = action_transition_delta(
        &g,
        &"Build".to_string(),
        &Some("go".to_string()),
        "Action.Start",
        "InProgress",
        "t1",
    )
    .unwrap();
    let attempt = &delta.create_nodes[0];
    assert_eq!(attempt.id, "node_execution_attempt_node_a_t1");
    assert_eq!(attempt.stable_key, "execution-attempt:node_a/InProgress");
    assert_eq!(attr_str(attempt, "operation"), Some("Action.Start"));
    assert_eq!(attr_str(attempt, "reason"), Some("go"));
    let updated = &delta.update_nodes[0];
    assert_eq!(attr_str(updated, "state"), Some("InProgress"));
    assert_eq!(attr_str(updated, "reason"), Some("go"));
    assert_eq!(delta.create_edges[0].edge_type, "HAS_EXECUTION_ATTEMPT");
    assert_eq!(delta.create_edges[0].to, attempt.id);
    assert!(matches!(
        action_transition_delta(&g, &"node_a".to_string(), &None, "Action.Complete", "Completed", "t2"),
        Err(StoreError::OperationValidationFailed(1))
    ));
    assert!(matches!(
        action_transition_delta(&g, &"nope".to_string(), &None, "Action.Start", "InProgress", "t3"),
        Err(StoreError::ActionGraphNotFound(a)) if a == "nope"
    ));
    let options = ActionLifecycleOptions {
        action: "Build".to_string(),
        actor: "local:dev".to_string(),
        graph_branch: "main".to_string(),
        reason: None,
    };
    let planned = specgraph::store_ops::plan_action_transition(&g, &options, "Action.Start", "InProgress").unwrap();
    assert!(planned.create_nodes[0].id.starts_with("node_execution_attempt_node_a_"));
    assert_eq!(attr_str(&planned.create_nodes[0], "reason"), Some(""));
}

#[test]
fn project_init_and_operation_gate_accept_a_valid_operation() {
    let delta = project_init_delta("demo", "local:admin");
    assert_eq!(delta.create_nodes[0].id, "node_project");
    assert_eq!(delta.create_nodes[0].stable_key, "project:demo");
    assert_eq!(attr_str(&delta.create_nodes[0], "createdBy"), Some("local:admin"));
    let req = request("Project.Init", object(vec![("projectName", text("demo"))]));
    let input = operation_policy_input(&req, &delta, &vec![]);
    let mut g = Graph::new();
    let result = apply_operation_at(&mut g, &req, &delta, &MvpOntology::new(), &input, 0);
    assert!(result.is_ok());
    assert!(g.node("node_project").is_some());
    let receipt = accepted_receipt(&req, &"pre".to_string(), &"post".to_string(), &delta);
    assert_eq!(receipt.created_nodes, strings(&["node_project"]));
    assert_eq!(receipt.operation, "Project.Init");
    assert!(receipt.accepted);
    assert!(receipt.event_ids.is_empty());
    let again = apply_operation_at(&mut g, &req, &delta, &MvpOntology::new(), &input, 0);
    assert!(matches!(again, Err(StoreError::OperationValidationFailed(1))));
}

#[test]
fn operation_gate_refuses_unknown_operation_and_secret_files() {
    let mut g = Graph::new();
    let delta = GraphDelta::empty();
    let unknown = request("Nope.Do", object(vec![]));
    let input = operation_policy_input(&unknown, &delta, &vec![]);
    assert!(matches!(
        apply_operation_at(&mut g, &unknown, &delta, &MvpOntology::new(), &input, 0),
        Err(StoreError::OperationValidationFailed(1))
    ));
    let mut code = GraphDelta::empty();
    code.create_nodes = vec![node("node_code_file_env", "code-file:.env", "CodeFile", vec![("path", text(".env"))])];
    let req = request(
        "Code.Index",
        object(vec![("changedFiles", JsonValue::Array(vec![text(".env")]))]),
    );
    let input = operation_policy_input(&req, &code, &vec![]);
    assert_eq!(input.changed_files, strings(&[".env"]));
    let result = apply_operation_at(&mut g, &req, &code, &MvpOntology::new(), &input, 0);
    assert!(matches!(result, Err(StoreError::PolicyValidationFailed(2))));
    assert!(g.nodes().is_empty());
}

#[test]
fn commit_record_binds_commit_to_group_plan_and_files() {
    let mut g = spec_graph("Planned");
    g.apply_delta(&action_graph_delta("AUTH-001", "node_spec_auth_001"));
    let input = CommitValidationInput {
        commit: "abc123".to_string(),
        message: "feat\n\nSpec: AUTH-001\nActionGroup: implementation\nCommitPlan: implementation\n".to_string(),
        changed_files: strings(&["src/auth.rs"]),
        changed_symbols: vec![],
    };
    let delta = record_commit_delta(&g, &input, &None).unwrap();
    let ids = delta.create_nodes.iter().map(|n| n.id.as_str()).collect::<Vec<_>>();
    assert_eq!(ids, vec!["node_git_commit_abc123", "node_code_file_src_auth_rs"]);
    let types = delta.create_edges.iter().map(|e| e.edge_type.as_str()).collect::<Vec<_>>();
    assert_eq!(types, vec!["IMPLEMENTS_ACTION_GROUP", "FOLLOWS_COMMIT_PLAN", "CHANGES_FILE"]);
    assert_eq!(delta.create_edges[0].to, "node_action_group_auth_001_implementation");
    assert_eq!(attr_str(&delta.create_nodes[0], "spec"), Some("AUTH-001"));
    let bad = CommitValidationInput { message: "feat".to_string(), ..input };
    assert!(matches!(record_commit_delta(&g, &bad, &None), Err(StoreError::CommitValidationFailed(3))));
}

#[test]
fn bind_branch_records_branch_snapshot_and_metadata() {
    let g = spec_graph("Planned");
    let options = BindBranchOptions {
        spec: "AUTH-001".to_string(),
        branch: "spec/AUTH-001-password-reset".to_string(),
        actor: "local:dev".to_string(),
        graph_branch: "main".to_string(),
    };
    let (delta, meta) = bind_branch_delta(&g, &options, &"abc".to_string(), 3, &Some("evt_3".to_string())).unwrap();
    assert_eq!(delta.create_nodes[0].id, "node_git_branch_spec_auth_001_password_reset");
    assert_eq!(delta.create_nodes[1].id, "node_graph_snapshot_abc");
    assert!(matches!(attr(&delta.create_nodes[0], "baseEventSequence"), Some(JsonValue::Int(3))));
    assert_eq!(attr_str(&delta.create_nodes[1], "eventId"), Some("evt_3"));
    assert_eq!(delta.create_edges[0].edge_type, "BOUND_TO_BRANCH");
    assert_eq!(delta.create_edges[1].edge_type, "STARTS_FROM_SNAPSHOT");
    assert_eq!(meta.schema_version, "specgraph.branch-metadata/v1");
    assert_eq!(meta.base_snapshot_id, "node_graph_snapshot_abc");
    assert_eq!(meta.base_event_sequence, 3);
    let bad = BindBranchOptions { branch: "feature/x".to_string(), ..options.clone() };
    assert!(matches!(
        bind_branch_delta(&g, &bad, &"abc".to_string(), 3, &None),
        Err(StoreError::InvalidBranchName(b)) if b == "feature/x"
    ));
    let other = BindBranchOptions { spec: "X".to_string(), branch: "spec/x-work".to_string(), ..options };
    assert!(matches!(
        bind_branch_delta(&g, &other, &"abc".to_string(), 3, &None),
        Err(StoreError::SpecNotFound(_))
    ));
}

#[test]
fn policy_report_records_one_decision_node_per_decision() {
    let g = graph(vec![node("node_project", "project:demo", "Project", vec![])], vec![]);
    let options = RecordPolicyReportOptions {
        policy_run_id: "run-1".to_string(),
        checked_operation: "Code.Index".to_string(),
        changed_files: strings(&[".env"]),
        actor: "local:ci".to_string(),
        graph_branch: "main".to_string(),
        report: PolicyReport {
            decisions: vec![PolicyDecision {
                policy: "policy.security.no_secret_files".to_string(),
                effect: PolicyEffect::Deny,
                message: "no".to_string(),
            }],
            findings: vec![specgraph::model::new_finding("x", FindingSeverity::Error, "bad".to_string())],
        },
    };
    let delta = record_policy_report_delta(&g, &options).unwrap();
    assert_eq!(delta.create_nodes.len(), 1);
    let n = &delta.create_nodes[0];
    assert_eq!(n.id, "node_policy_decision_run_1_0_policy_security_no_secret_files");
    assert_eq!(n.stable_key, "policy-decision:run-1/0-policy.security.no_secret_files");
    assert_eq!(attr_str(n, "effect"), Some("Deny"));
    assert!(matches!(attr(n, "blockingFindingCount"), Some(JsonValue::Int(1))));
    assert!(matches!(attr(n, "index"), Some(JsonValue::Int(0))));
    assert_eq!(delta.create_edges[0].from, "node_project");
    let blank = RecordPolicyReportOptions { policy_run_id: " ".to_string(), ..options.clone() };
    assert!(matches!(record_policy_report_delta(&g, &blank), Err(StoreError::EmptyEvidenceId)));
    assert!(matches!(record_policy_report_delta(&Graph::new(), &options), Err(StoreError::ProjectNotFound)));
}

fn event(sequence: u64, previous: Option<&str>) -> Event {
    Event {
        schema_version: "specgraph.event/v1".to_string(),
        event_id: format!("evt_{sequence}"),
        sequence,
        previous_event_id: previous.map(|p| p.to_string()),
        operation_id: "op".to_string(),
        operation: "Project.Init".to_string(),
        actor: "local:admin".to_string(),
        timestamp: "now".to_string(),
        ontology_version: "core@0.1.0".to_string(),
        graph_branch: "main".to_string(),
        pre_state_hash: "a".to_string(),
        post_state_hash: "b".to_string(),
        delta: GraphDelta::empty(),
        signatures: vec![],
    }
}

#[test]
fn event_links_check_sequence_then_chain() {
    let path = "events/00000001.jsonl".to_string();
    assert!(check_event_link(&path, 1, &None, &event(1, None)).is_ok());
    assert!(check_event_link(&path, 2, &Some("evt_1".to_string()), &event(2, Some("evt_1"))).is_ok());
    assert!(matches!(
        check_event_link(&path, 2, &Some("evt_1".to_string()), &event(3, Some("evt_1"))),
        Err(StoreError::SequenceMismatch { expected: 2, actual: 3, .. })
    ));
    assert!(matches!(
        check_event_link(&path, 2, &Some("evt_1".to_string()), &event(2, None)),
        Err(StoreError::EventChainMismatch { expected: Some(_), actual: None, .. })
    ));
}

#[test]
fn bind_branch_rejects_invalid_branch_name() {
    let g = spec_graph("Planned");
    let options = BindBranchOptions {
        spec: "AUTH-001".to_string(),
        branch: "feature/password-reset".to_string(),
        actor: "test".to_string(),
        graph_branch: "main".to_string(),
    };
    assert!(matches!(
        bind_branch_delta(&g, &options, &"h".to_string(), 1, &None),
        Err(StoreError::InvalidBranchName(b)) if b == "feature/password-reset"
    ));
}

#[test]
fn spec_branch_names_need_a_slug() {
    assert!(validate_spec_branch_name("AUTH-001", "spec/AUTH-001-password-reset").is_ok());
    assert!(validate_spec_branch_name("AUTH-001", "SPEC/auth-001-Reset_2.x").is_ok());
    assert!(validate_spec_branch_name("AUTH-001", "spec/AUTH-001").is_err());
    assert!(validate_spec_branch_name("AUTH-001", "spec/AUTH-001-").is_err());
    assert!(validate_spec_branch_name("AUTH-001", "spec/AUTH-001-fix/login").is_ok());
    assert!(validate_spec_branch_name("AUTH-001", "spec/AUTH-0012-x").is_err());
}

fn item(id: &str, text: &str) -> TextItem {
    TextItem { id: id.to_string(), text: text.to_string() }
}

#[test]
fn append_operation_rejects_invalid_state_transition_before_event_append() {
    let projection = SpecProjection {
        spec: "AUTH-001".to_string(),
        title: "Password reset".to_string(),
        module: None,
        priority: None,
        summary: None,
        requirements: vec![item("REQ-001", "User can request reset")],
        acceptance_criteria: vec![item("AC-001", "Generic response")],
        risks: vec![],
        mitigations: vec![],
        expected_behaviors: vec![],
        forbidden_behaviors: vec![],
        use_cases: vec![],
        endpoints: vec![],
        entities: vec![],
        events: vec![],
        data_objects: vec![],
        tests: vec![],
    };
    let mut create = projection.to_delta();
    for node in &mut create.create_nodes {
        if node.node_type == "Spec" {
            node.attributes.push(("state".to_string(), text("Draft")));
        }
    }
    let ontology = MvpOntology::new();
    let mut g = graph(vec![node("node_project", "project:demo", "Project", vec![])], vec![]);
    let req = request("Spec.Create", object(vec![("spec", text("AUTH-001"))]));
    let input = operation_policy_input(&req, &create, &vec![]);
    assert!(apply_operation_at(&mut g, &req, &create, &ontology, &input, 0).is_ok());
    let spec = g.nodes().iter().find(|n| n.node_type == "Spec").unwrap();
    let mut updated = spec.duplicate();
    updated.attributes.retain(|(k, _)| k != "state");
    updated.attributes.push(("state".to_string(), text("Released")));
    let before = g.nodes().len();
    let mut delta = GraphDelta::empty();
    delta.update_nodes = vec![updated];
    let input = operation_policy_input(&req, &delta, &vec![]);
    let error = apply_operation_at(&mut g, &req, &delta, &ontology, &input, 0).unwrap_err();
    assert!(matches!(error, StoreError::OntologyValidationFailed(1)));
    assert_eq!(g.nodes().len(), before);
    let spec = g.nodes().iter().find(|n| n.node_type == "Spec").unwrap();
    assert_eq!(attr_str(spec, "state"), Some("Draft"));
    let mut next = spec.duplicate();
    next.attributes.retain(|(k, _)| k != "state");
    next.attributes.push(("state".to_string(), text("Validated")));
    let mut ok = GraphDelta::empty();
    ok.update_nodes = vec![next];
    let input = operation_policy_input(&req, &ok, &vec![]);
    assert!(apply_operation_at(&mut g, &req, &ok, &ontology, &input, 0).is_ok());
}
