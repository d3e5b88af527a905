use specgraph::data_graph::{
    validate_data_graph, ColumnDefinition, DataContractDefinition, DataGraphProjection, TableDefinition,
};
use specgraph::drift::detect_drift;
use specgraph::impact::{
    analyze_impact, build_revalidation_queue, continuation_blockers_for_action, policy_impact_replan,
    replan_delta_from_queue, revalidation_queue_delta,
};
use specgraph::model::{Edge, FindingSeverity, Graph, GraphDelta, JsonValue, Node};
use specgraph::ontology::MvpOntology;
use specgraph::policy::{
    evaluate_policies, evaluate_policy_manifest, PolicyCheckInput, PolicyEffect, PolicyManifest, PolicyRule,
    Waiver,
};
use specgraph::query::{GraphQuery, QueryDirection, QueryLimitExceeded, QueryLimits};
use specgraph::test_runner::{validate_required_tests_pass, TestCaseResult, TestRunRecord, TestStatus};
use specgraph::git_graph::{
    pull_request_node_id, validate_pr_hosting_graph, GitBranchFact, GitCommitFact, GitGraphProjection, GitMergeFact,
    GitReleaseFact, GitRemoteFact, GitTagFact, PullRequestFact, ReleaseArtifactFact,
};
use specgraph::issue_graph::validate_issue_lifecycle;
use specgraph::git::{
    validate_changed_files_against_action_group, validate_commit_binding, validate_commit_plan_requirements,
    CommitTrailers, CommitValidationInput,
};
use specgraph::store::{
    action_graph_delta, action_lifecycle_blockers, approval_node, changed_files_for_policy,
    find_action_group_and_commit_plan, find_actor_node_id, role_node, spec_state_blockers, RecordApprovalOptions,
};
use specgraph::migration_runtime::{
    observe_migration_file, validate_migration_runtime, MigrationPlan, MigrationTestEvidence, RollbackPlan,
};
use specgraph::model::{OperationRequest, OPERATION_REQUEST_SCHEMA_VERSION};
use specgraph::module_graph::{
    module_definition_from_graph, validate_module_baseline, InterfaceVisibility, ModuleDefinition,
    ModuleGraphProjection, ModuleInterface,
};
use specgraph::operation_abi::{
    validate_operation_postconditions, validate_operation_preconditions, validate_operation_request,
};
use specgraph::spec::{SpecProjection, TextItem};
use specgraph::trace::{
    validate_trace_links, AnnotationLink, BehaviorTestLink, CodeUseCaseLink, InferredLinkFacts, LinksManifest,
    RiskTestLink, RouteEndpointLink, TestLink,
};

fn text(value: &str) -> JsonValue {
    JsonValue::Text(value.to_string())
}

fn node(id: &str, stable_key: &str, node_type: &str, attributes: Vec<(&str, JsonValue)>) -> Node {
    Node {
        id: id.to_string(),
        stable_key: stable_key.to_string(),
        node_type: node_type.to_string(),
        attributes: attributes.into_iter().map(|(k, v)| (k.to_string(), v)).collect(),
    }
}

fn edge(id: &str, from: &str, edge_type: &str, to: &str) -> Edge {
    Edge {
        id: id.to_string(),
        stable_key: format!("edge:{from}:{edge_type}:{to}"),
        edge_type: edge_type.to_string(),
        from: from.to_string(),
        to: to.to_string(),
        attributes: Vec::new(),
    }
}

fn graph(nodes: Vec<Node>, edges: Vec<Edge>) -> Graph {
    let mut g = Graph::new();
    let mut delta = GraphDelta::empty();
    delta.create_nodes = nodes;
    delta.create_edges = edges;
    g.apply_delta(&delta);
    g
}

fn check(operation: &str, files: &[&str], approvals: &[&str], waivers: Vec<Waiver>) -> PolicyCheckInput {
    PolicyCheckInput {
        operation: operation.to_string(),
        changed_files: files.iter().map(|f| f.to_string()).collect(),
        actor_roles: vec![],
        approvals: approvals.iter().map(|a| a.to_string()).collect(),
        waivers,
    }
}

fn rule(id: &str, effect: PolicyEffect, message: &str, operations: &[&str], globs: &[&str], approvals: &[&str], waivable: bool) -> PolicyRule {
    PolicyRule {
        id: id.to_string(),
        description: None,
        effect,
        message: Some(message.to_string()),
        operations: operations.iter().map(|o| o.to_string()).collect(),
        changed_file_globs: globs.iter().map(|g| g.to_string()).collect(),
        required_approvals: approvals.iter().map(|a| a.to_string()).collect(),
        required_roles: vec![],
        waivable,
    }
}

fn waiver(policy: &str, reason: &str, approved_by: &str, expires_at: &str) -> Waiver {
    Waiver {
        policy: policy.to_string(),
        reason: reason.to_string(),
        approved_by: approved_by.to_string(),
        expires_at: Some(expires_at.to_string()),
    }
}

#[test]
fn denies_secret_file_changes() {
    let report = evaluate_policies(&Graph::new(), &check("Merge", &[".env"], &[], vec![]));
    assert!(report.decisions.iter().any(|decision| decision.effect == PolicyEffect::Deny));
}

#[test]
fn manifest_rule_requires_approval_until_satisfied() {
    let manifest = PolicyManifest {
        policies: vec![rule(
            "policy.custom.migration",
            PolicyEffect::RequireApproval,
            "Migration needs data review.",
            &["Merge"],
            &["migrations/**"],
            &["data-migration"],
            false,
        )],
    };
    let report = evaluate_policy_manifest(&check("Merge", &["migrations/001.sql"], &[], vec![]), &manifest);
    assert!(report.findings.iter().any(|finding| finding.code == "policy.custom.migration"));

    let allowed = evaluate_policy_manifest(&check("Merge", &["migrations/001.sql"], &["data-migration"], vec![]), &manifest);
    assert!(allowed.findings.is_empty());
    assert!(allowed.decisions.iter().any(|decision| decision.effect == PolicyEffect::Allow));
}

#[test]
fn manifest_rule_can_warn_on_glob() {
    let manifest = PolicyManifest {
        policies: vec![rule("policy.custom.docs", PolicyEffect::Warn, "Docs changed.", &[], &["docs/**"], &[], false)],
    };
    let report = evaluate_policy_manifest(&check("Merge", &["docs/readme.md"], &[], vec![]), &manifest);
    assert_eq!(report.findings[0].severity, FindingSeverity::Warning);
}

#[test]
fn built_in_policy_accepts_valid_unexpired_waiver() {
    let report = evaluate_policies(
        &Graph::new(),
        &check(
            "Merge",
            &["migrations/001.sql"],
            &[],
            vec![waiver(
                "policy.data.migration_approval",
                "Local development migration exception",
                "architect",
                "2999-01-01T00:00:00Z",
            )],
        ),
    );
    assert!(!report.findings.iter().any(|finding| finding.code == "policy.data.migration_approval"));
}

#[test]
fn expired_waiver_does_not_satisfy_built_in_policy() {
    let report = evaluate_policies(
        &Graph::new(),
        &check(
            "Merge",
            &["migrations/001.sql"],
            &[],
            vec![waiver("policy.data.migration_approval", "Expired exception", "architect", "2000-01-01T00:00:00Z")],
        ),
    );
    assert!(report.findings.iter().any(|finding| finding.code == "policy.waiver.expired"));
    assert!(report.findings.iter().any(|finding| finding.code == "policy.data.migration_approval"));
}

#[test]
fn malformed_waiver_reports_required_fields_and_expiration() {
    let report = evaluate_policies(
        &Graph::new(),
        &check("Merge", &[], &[], vec![waiver("policy.example", "", "", "tomorrow")]),
    );
    for code in ["policy.waiver.reason_required", "policy.waiver.approver_required", "policy.waiver.expires_at_invalid"] {
        assert!(report.findings.iter().any(|finding| finding.code == code), "{code}");
    }
}

#[test]
fn manifest_waivable_rule_requires_valid_waiver() {
    let manifest = PolicyManifest {
        policies: vec![rule(
            "policy.custom.docs",
            PolicyEffect::Deny,
            "Docs change denied unless waived.",
            &["Merge"],
            &["docs/**"],
            &[],
            true,
        )],
    };
    let expired = evaluate_policy_manifest(
        &check(
            "Merge",
            &["docs/readme.md"],
            &[],
            vec![waiver("policy.custom.docs", "Temporary docs migration", "maintainer", "2000-01-01T00:00:00Z")],
        ),
        &manifest,
    );
    assert!(expired.findings.iter().any(|finding| finding.code == "policy.custom.docs"));

    let valid = evaluate_policy_manifest(
        &check(
            "Merge",
            &["docs/readme.md"],
            &[],
            vec![waiver("policy.custom.docs", "Temporary docs migration", "maintainer", "2999-01-01T00:00:00Z")],
        ),
        &manifest,
    );
    assert!(valid.findings.is_empty());
    assert!(valid.decisions.iter().any(|decision| decision.effect == PolicyEffect::Allow));
}

#[test]
fn non_waivable_manifest_rule_cannot_be_waived() {
    let manifest = PolicyManifest {
        policies: vec![rule(
            "policy.custom.no-waive",
            PolicyEffect::Deny,
            "This rule cannot be waived.",
            &["Merge"],
            &["src/**"],
            &[],
            false,
        )],
    };
    let report = evaluate_policy_manifest(
        &check(
            "Merge",
            &["src/lib.rs"],
            &[],
            vec![waiver("policy.custom.no-waive", "Trying to waive", "maintainer", "2999-01-01T00:00:00Z")],
        ),
        &manifest,
    );
    assert!(report.findings.iter().any(|finding| finding.code == "policy.custom.no-waive"));
}

fn plain(id: &str, node_type: &str, stable_key: &str) -> Node {
    node(id, stable_key, node_type, vec![])
}

fn code_file(id: &str, path: &str) -> Node {
    node(id, &format!("code-file:{path}"), "CodeFile", vec![("path", text(path))])
}

#[test]
fn reports_spec_code_test_data_and_architecture_drift() {
    let g = graph(
        vec![
            plain("endpoint", "Endpoint", "endpoint:AUTH-001/POST-/reset"),
            plain("behavior", "Behavior", "behavior:AUTH-001/BEH-001"),
            plain("risk", "Risk", "risk:AUTH-001/RISK-001"),
            code_file("migration_file", "db/migrations/001_users.sql"),
            code_file("identity_file", "src/identity.js"),
            code_file("data_file", "src/data.js"),
            plain("identity", "Module", "module:Identity"),
            plain("data", "Module", "module:Data"),
        ],
        vec![
            edge("own_identity", "identity_file", "OWNED_BY_MODULE", "identity"),
            edge("own_data", "data_file", "OWNED_BY_MODULE", "data"),
            edge("import", "identity_file", "IMPORTS_FILE", "data_file"),
        ],
    );
    let report = detect_drift(&g);
    assert!(report.is_blocked());
    for code in [
        "drift.endpoint_missing_route",
        "drift.behavior_missing_test",
        "drift.migration_file_missing_graph_fact",
        "drift.import_missing_architecture_call",
    ] {
        assert!(report.findings.iter().any(|finding| finding.code == code), "{code}");
    }
}

#[test]
fn linked_graph_has_no_phase_four_drift() {
    let g = graph(
        vec![
            plain("endpoint", "Endpoint", "endpoint:AUTH-001/POST-/reset"),
            plain("route", "CodeRoute", "code-route:POST-/reset"),
            plain("behavior", "Behavior", "behavior:AUTH-001/BEH-001"),
            plain("risk", "Risk", "risk:AUTH-001/RISK-001"),
            plain("test", "TestCase", "test-case:tests/auth::reset"),
            plain("symbol", "CodeSymbol", "code-symbol:src/auth.ts/function/reset"),
            plain("migration", "Migration", "migration:db/migrations/001_users.sql"),
            code_file("migration_file", "db/migrations/001_users.sql"),
            code_file("identity_file", "src/identity.js"),
            code_file("data_file", "src/data.js"),
            plain("identity", "Module", "module:Identity"),
            plain("data", "Module", "module:Data"),
        ],
        vec![
            edge("route_endpoint", "route", "ROUTES_TO_ENDPOINT", "endpoint"),
            edge("impl_behavior", "symbol", "IMPLEMENTS_BEHAVIOR", "behavior"),
            edge("test_behavior", "test", "TESTS_BEHAVIOR", "behavior"),
            edge("risk_code", "symbol", "ADDRESSES_RISK", "risk"),
            edge("own_identity", "identity_file", "OWNED_BY_MODULE", "identity"),
            edge("own_data", "data_file", "OWNED_BY_MODULE", "data"),
            edge("import", "identity_file", "IMPORTS_FILE", "data_file"),
            edge("call", "identity", "CALLS", "data"),
        ],
    );
    let report = detect_drift(&g);
    assert!(report.findings.is_empty());
}

fn chain_graph() -> Graph {
    let state = || vec![("state", text("Ready"))];
    graph(
        vec![
            node("node_spec", "spec:AUTH-001", "Spec", state()),
            node("node_action", "action-node:AUTH-001/impl", "ActionNode", state()),
            node("node_validation", "validation-run:run-1", "ValidationRun", state()),
        ],
        vec![
            edge("edge_spec_action", "node_spec", "HAS_ACTION", "node_action"),
            edge("edge_action_validation", "node_action", "VALIDATED_BY", "node_validation"),
        ],
    )
}

#[test]
fn impact_analysis_traverses_direct_and_indirect_edges() {
    let g = chain_graph();
    let analysis = analyze_impact(&g, vec!["node_spec".to_string()], 3);
    assert!(analysis.impacted_nodes.contains(&"node_action".to_string()));
    assert!(analysis.impacted_nodes.contains(&"node_validation".to_string()));
    assert_eq!(analysis.traversed_edges.len(), 2);
}

#[test]
fn revalidation_queue_invalidates_actions_and_validations() {
    let g = chain_graph();
    let analysis = analyze_impact(&g, vec!["node_spec".to_string()], 3);
    let queue = build_revalidation_queue(&g, &analysis);
    assert!(queue.replan_required);
    assert_eq!(queue.invalidated_actions, vec!["node_action".to_string()]);
    assert_eq!(queue.invalidated_validations, vec!["node_validation".to_string()]);
    assert_eq!(queue.entries.len(), 2);
}

#[test]
fn queue_delta_records_revalidation_queue_fact() {
    let g = chain_graph();
    let analysis = analyze_impact(&g, vec!["node_spec".to_string()], 3);
    let queue = build_revalidation_queue(&g, &analysis);
    let delta = revalidation_queue_delta(&queue);
    assert_eq!(delta.create_nodes[0].node_type, "RevalidationQueue");
    assert_eq!(delta.create_nodes[0].stable_key, queue.queue_id);
}

fn attr<'a>(n: &'a Node, key: &str) -> Option<&'a JsonValue> {
    n.attributes.iter().find(|(k, _)| k == key).map(|(_, v)| v)
}

fn attr_str<'a>(n: &'a Node, key: &str) -> Option<&'a str> {
    match attr(n, key) {
        Some(JsonValue::Text(t)) => Some(t.as_str()),
        _ => None,
    }
}

#[test]
fn queue_replan_delta_marks_actions_replanned() {
    let g = chain_graph();
    let analysis = analyze_impact(&g, vec!["node_spec".to_string()], 3);
    let queue = build_revalidation_queue(&g, &analysis);
    let delta = replan_delta_from_queue(&g, &queue);
    assert_eq!(delta.update_nodes.len(), 1);
    assert_eq!(attr_str(&delta.update_nodes[0], "state"), Some("Replanned"));
}

fn policy_action_graph(action_state: &str) -> Graph {
    graph(
        vec![
            node(
                "node_policy_requirement",
                "policy-requirement:security/no-secret",
                "PolicyRequirement",
                vec![("state", text("Accepted"))],
            ),
            node("node_action", "action-node:AUTH-001/impl", "ActionNode", vec![("state", text(action_state))]),
        ],
        vec![Edge {
            id: "edge_policy_action".to_string(),
            stable_key: "edge:policy:IMPACTS:action".to_string(),
            edge_type: "IMPACTS".to_string(),
            from: "node_policy_requirement".to_string(),
            to: "node_action".to_string(),
            attributes: Vec::new(),
        }],
    )
}

#[test]
fn policy_change_invalidates_action_and_requires_replan() {
    let g = policy_action_graph("InProgress");
    let replan = policy_impact_replan(&g, vec!["node_policy_requirement".to_string()], 2);
    assert!(replan.queue.replan_required);
    assert_eq!(replan.continuation_blockers, vec!["node_action".to_string()]);
    assert_eq!(
        continuation_blockers_for_action("node_action", &replan),
        vec!["Action `node_action` is invalidated by policy/impact changes and must be replanned before continuation".to_string()]
    );
}

#[test]
fn completed_action_is_not_continuation_blocker() {
    let g = policy_action_graph("Completed");
    let replan = policy_impact_replan(&g, vec!["node_policy_requirement".to_string()], 2);
    assert!(replan.continuation_blockers.is_empty());
}

fn sample_graph() -> Graph {
    graph(
        vec![
            node("spec", "spec:AUTH-001", "Spec", vec![("priority", text("P1"))]),
            plain("req", "Requirement", "requirement:AUTH-001/REQ-001"),
            plain("ac", "AcceptanceCriterion", "acceptance-criterion:AUTH-001/AC-001"),
        ],
        vec![
            Edge {
                id: "edge_req".to_string(),
                stable_key: "edge:spec:HAS_REQUIREMENT:req".to_string(),
                edge_type: "HAS_REQUIREMENT".to_string(),
                from: "spec".to_string(),
                to: "req".to_string(),
                attributes: Vec::new(),
            },
            Edge {
                id: "edge_ac".to_string(),
                stable_key: "edge:spec:HAS_ACCEPTANCE_CRITERION:ac".to_string(),
                edge_type: "HAS_ACCEPTANCE_CRITERION".to_string(),
                from: "spec".to_string(),
                to: "ac".to_string(),
                attributes: Vec::new(),
            },
        ],
    )
}

#[test]
fn query_nodes_by_type_is_deterministic() {
    let g = graph(vec![plain("b", "Spec", "spec:B"), plain("a", "Spec", "spec:A")], vec![]);
    let query = GraphQuery::new(&g);
    let ids = query.nodes_by_type("Spec").into_iter().map(|n| n.id.as_str()).collect::<Vec<_>>();
    assert_eq!(ids, vec!["a", "b"]);
}

#[test]
fn query_helpers_find_nodes_and_paths_deterministically() {
    let g = sample_graph();
    let query = GraphQuery::new(&g);
    assert_eq!(query.get_node_by_stable_key("spec:AUTH-001").unwrap().id, "spec");
    let priority = text("P1");
    let specs = query.find_nodes(Some("Spec"), &[("priority", &priority)]);
    assert_eq!(specs.iter().map(|n| n.id.as_str()).collect::<Vec<_>>(), vec!["spec"]);
    assert!(query.path_exists("spec", &["HAS_REQUIREMENT"], Some("Requirement")));
    assert!(!query.path_exists("req", &["HAS_REQUIREMENT"], Some("Requirement")));
}

#[test]
fn neighbors_are_unique_and_sorted() {
    let g = sample_graph();
    let query = GraphQuery::new(&g);
    let ids = query
        .neighbors("spec", QueryDirection::Outgoing, None)
        .into_iter()
        .map(|n| n.id.as_str())
        .collect::<Vec<_>>();
    assert_eq!(ids, vec!["ac", "req"]);
}

#[test]
fn subgraph_traversal_is_bounded() {
    let g = sample_graph();
    let query = GraphQuery::new(&g);
    let sub = query.subgraph(&["spec"], 1, QueryLimits::default()).unwrap();
    assert_eq!(sub.nodes().iter().map(|n| n.id.as_str()).collect::<Vec<_>>(), vec!["ac", "req", "spec"]);
    assert_eq!(sub.edges().iter().map(|e| e.id.as_str()).collect::<Vec<_>>(), vec!["edge_ac", "edge_req"]);
    let error = query
        .subgraph(&["spec"], 2, QueryLimits { max_depth: 1, ..QueryLimits::default() })
        .unwrap_err();
    assert_eq!(error, QueryLimitExceeded::Depth { requested: 2, max: 1 });
}

#[test]
fn subgraph_refuses_more_nodes_than_allowed() {
    let g = sample_graph();
    let query = GraphQuery::new(&g);
    let error = query
        .subgraph(&["spec"], 1, QueryLimits { max_depth: 4, max_nodes: 2, max_edges: 5000 })
        .unwrap_err();
    assert_eq!(error, QueryLimitExceeded::Nodes { max: 2 });
    let error = query
        .subgraph(&["spec"], 1, QueryLimits { max_depth: 4, max_nodes: 1000, max_edges: 1 })
        .unwrap_err();
    assert_eq!(error, QueryLimitExceeded::Edges { max: 1 });
    let none = query.subgraph(&["missing"], 2, QueryLimits::default()).unwrap();
    assert!(none.nodes().is_empty());
    assert!(none.edges().is_empty());
}

#[test]
fn data_graph_projection_models_tables_columns_and_contracts() {
    let projection = DataGraphProjection {
        project_node_id: "node_project".to_string(),
        tables: vec![TableDefinition {
            name: "users".to_string(),
            owner_module: "identity".to_string(),
            persistence: Some("postgres".to_string()),
            columns: vec![ColumnDefinition {
                name: "id".to_string(),
                data_type: "uuid".to_string(),
                nullable: false,
                primary_key: true,
            }],
        }],
        data_contracts: vec![DataContractDefinition {
            name: "identity.users".to_string(),
            owner_module: "identity".to_string(),
            tables: vec!["users".to_string()],
            consumers: vec!["billing".to_string()],
        }],
    };
    let delta = projection.to_delta();
    assert!(delta.create_nodes.iter().any(|n| n.node_type == "Table"));
    assert!(delta.create_edges.iter().any(|e| e.edge_type == "OWNS_TABLE"));
    assert!(!MvpOntology::new().is_node_type("Table"));
    let ontology = MvpOntology::new().with_extensions(
        vec!["Table".to_string(), "Column".to_string(), "DataContract".to_string()],
        vec![],
    );
    assert!(delta.create_nodes.iter().all(|n| ontology.is_node_type(&n.node_type)));
}

#[test]
fn data_graph_projection_ids_and_keys() {
    let projection = DataGraphProjection {
        project_node_id: "node_project".to_string(),
        tables: vec![TableDefinition {
            name: "Users".to_string(),
            owner_module: "Identity".to_string(),
            persistence: None,
            columns: vec![],
        }],
        data_contracts: vec![],
    };
    let delta = projection.to_delta();
    assert_eq!(delta.create_nodes.len(), 1);
    assert_eq!(delta.create_nodes[0].id, "node_table_users");
    assert_eq!(delta.create_nodes[0].stable_key, "table:users");
    assert_eq!(delta.create_nodes[0].attributes.len(), 2);
    let ids = delta.create_edges.iter().map(|e| e.id.as_str()).collect::<Vec<_>>();
    assert_eq!(
        ids,
        vec![
            "edge_node-module-identity_owns-table_node-table-users",
            "edge_node-project_has-table_node-table-users",
        ]
    );
}

#[test]
fn data_graph_requires_table_owner() {
    let g = graph(vec![node("node_table_orphan", "table:orphan", "Table", vec![("name", text("orphan"))])], vec![]);
    let findings = validate_data_graph(&g);
    assert!(findings.iter().any(|f| f.code == "data_graph.table_owner_required"));
    assert!(findings.iter().any(|f| f.code == "data_graph.table_columns_required"));
    assert_eq!(findings.len(), 2);
}

#[test]
fn test_run_delta_links_results_to_validation() {
    let delta = TestRunRecord {
        run_id: "run-1".into(),
        runner: "manual".into(),
        validation_run_id: "validation-1".into(),
        commit: None,
        results: vec![TestCaseResult {
            test: "tests/auth::reset".into(),
            status: TestStatus::Passed,
            file: Some("tests/auth.rs".into()),
            duration_ms: Some(10),
        }],
    }
    .to_delta();
    assert!(delta.create_nodes.iter().any(|n| n.node_type == "TestRun"));
    assert!(delta.create_edges.iter().any(|e| e.edge_type == "HAS_TEST_RUN"));
}

#[test]
fn test_run_status_fails_when_any_result_failed() {
    let delta = TestRunRecord {
        run_id: "run-2".into(),
        runner: "cargo".into(),
        validation_run_id: "validation-2".into(),
        commit: Some("abc".into()),
        results: vec![
            TestCaseResult { test: "a".into(), status: TestStatus::Passed, file: None, duration_ms: None },
            TestCaseResult { test: "b".into(), status: TestStatus::Failed, file: None, duration_ms: Some(u64::MAX) },
        ],
    }
    .to_delta();
    assert_eq!(delta.create_nodes.len(), 4);
    assert_eq!(attr_str(&delta.create_nodes[0], "status"), Some("Failed"));
    assert_eq!(attr_str(&delta.create_nodes[1], "status"), Some("Failed"));
    match attr(&delta.create_nodes[3], "durationMs") {
        Some(JsonValue::Number(n)) => assert_eq!(n, "18446744073709551615"),
        other => panic!("unexpected duration {other:?}"),
    }
    assert_eq!(delta.create_edges.len(), 5);
}

#[test]
fn required_failing_test_blocks() {
    let g = graph(
        vec![
            plain("test", "TestCase", "test-case:tests/auth::reset"),
            plain("ac", "AcceptanceCriterion", "acceptance-criterion:AUTH/AC"),
            node("result", "test-result:run/tests/auth::reset", "TestResult", vec![("status", text("Failed"))]),
        ],
        vec![
            Edge { id: "verifies".into(), ..edge("verifies", "test", "VERIFIES", "ac") },
            Edge { id: "result-for".into(), ..edge("result-for", "result", "TEST_RESULT_FOR", "test") },
        ],
    );
    let findings = validate_required_tests_pass(&g);
    assert!(findings.iter().any(|f| f.code == "test.required_result_failed"));
}

#[test]
fn required_test_without_result_is_missing() {
    let g = graph(
        vec![plain("test", "TestCase", "test-case:x"), plain("ac", "AcceptanceCriterion", "acceptance-criterion:A/B")],
        vec![edge("verifies", "test", "VERIFIES", "ac")],
    );
    let findings = validate_required_tests_pass(&g);
    assert_eq!(findings.len(), 1);
    assert_eq!(findings[0].code, "test.required_result_missing");
    assert_eq!(findings[0].message, "Required linked test `test` has no TestResult evidence.");
}

fn title_graph(title: &str) -> Graph {
    graph(vec![node("node_spec_auth_001", "spec:AUTH-001", "Spec", vec![("title", text(title))])], vec![])
}

#[test]
fn detects_concurrent_node_update_conflict() {
    let conflicts = specgraph::graph_merge::detect_merge_conflicts(&title_graph("Base"), &title_graph("Ours"), &title_graph("Theirs"));
    assert_eq!(conflicts.len(), 1);
    assert_eq!(conflicts[0].kind, "node.concurrent_update");
}

#[test]
fn ignores_matching_concurrent_node_updates() {
    let conflicts = specgraph::graph_merge::detect_merge_conflicts(&title_graph("Base"), &title_graph("Same"), &title_graph("Same"));
    assert!(conflicts.is_empty());
}

fn request(schema_version: &str, operation: &str, actor: &str, input: JsonValue) -> OperationRequest {
    OperationRequest {
        schema_version: schema_version.to_string(),
        operation_id: "op".to_string(),
        operation: operation.to_string(),
        actor: actor.to_string(),
        timestamp: "now".to_string(),
        ontology_version: "core@0.1.0".to_string(),
        graph_branch: "main".to_string(),
        dry_run: false,
        input,
    }
}

fn project_delta() -> GraphDelta {
    let mut d = GraphDelta::empty();
    d.create_nodes = vec![plain("node_project", "Project", "project:demo")];
    d
}

fn object(fields: Vec<(&str, JsonValue)>) -> JsonValue {
    JsonValue::Object(fields.into_iter().map(|(k, v)| (k.to_string(), v)).collect())
}

#[test]
fn rejects_unknown_operation() {
    let findings = validate_operation_request(
        &request(OPERATION_REQUEST_SCHEMA_VERSION, "Unknown.Do", "test", object(vec![])),
        &GraphDelta::empty(),
    );
    assert!(findings.iter().any(|f| f.code == "operation.unknown"));
}

#[test]
fn rejects_missing_operation_actor() {
    let findings = validate_operation_request(
        &request(OPERATION_REQUEST_SCHEMA_VERSION, "Project.Init", " ", object(vec![("projectName", text("demo"))])),
        &project_delta(),
    );
    assert!(findings.iter().any(|f| f.code == "operation.actor_required"));
}

#[test]
fn rejects_unsupported_request_schema_version() {
    let findings = validate_operation_request(
        &request("specgraph.operation-request/v0", "Project.Init", "test", object(vec![("projectName", text("demo"))])),
        &project_delta(),
    );
    assert!(findings.iter().any(|f| f.code == "operation.schema_version_unsupported"));
}

#[test]
fn accepts_well_formed_request_and_reports_input_and_types() {
    let ok = validate_operation_request(
        &request(OPERATION_REQUEST_SCHEMA_VERSION, "Project.Init", "local:user", object(vec![("projectName", text("demo"))])),
        &project_delta(),
    );
    assert!(ok.is_empty(), "{ok:?}");
    let mut d = project_delta();
    d.create_nodes.push(plain("node_spec", "Spec", "spec:X"));
    let bad = validate_operation_request(
        &request(OPERATION_REQUEST_SCHEMA_VERSION, "Project.Init", "bad actor", object(vec![("projectName", JsonValue::Null)])),
        &d,
    );
    let codes = bad.iter().map(|f| f.code.as_str()).collect::<Vec<_>>();
    assert_eq!(codes, vec!["operation.actor_invalid", "operation.input_missing", "operation.node_type_not_allowed"]);
    assert_eq!(bad[1].message, "Operation `Project.Init` is missing required input field `projectName`");
}

#[test]
fn preconditions_reject_creating_existing_node() {
    let g = graph(vec![plain("node_spec_auth_001", "Spec", "spec:AUTH-001")], vec![]);
    let mut d = GraphDelta::empty();
    d.create_nodes = vec![plain("node_spec_auth_001", "Spec", "spec:AUTH-001")];
    let findings = validate_operation_preconditions(&g, &d);
    assert!(findings.iter().any(|f| f.code == "operation.precondition.node_already_exists"));
}

#[test]
fn preconditions_reject_updating_missing_node() {
    let mut d = GraphDelta::empty();
    d.update_nodes = vec![plain("missing", "Spec", "spec:MISSING")];
    let findings = validate_operation_preconditions(&Graph::new(), &d);
    assert!(findings.iter().any(|f| f.code == "operation.precondition.node_missing_for_update"));
}

#[test]
fn postconditions_reject_missing_created_node_after_apply() {
    let mut d = GraphDelta::empty();
    d.create_nodes = vec![plain("node_spec_auth_001", "Spec", "spec:AUTH-001")];
    let findings = validate_operation_postconditions(&Graph::new(), &d);
    assert!(findings.iter().any(|f| f.code == "operation.postcondition.node_not_present"));
}

#[test]
fn applying_a_delta_meets_its_postconditions() {
    let mut g = graph(vec![plain("old", "Spec", "spec:OLD"), plain("keep", "Spec", "spec:KEEP")], vec![]);
    let mut d = GraphDelta::empty();
    d.create_nodes = vec![plain("new", "Spec", "spec:NEW")];
    d.update_nodes = vec![node("keep", "spec:KEEP", "Spec", vec![("title", text("t"))])];
    d.delete_nodes = vec!["old".to_string()];
    assert!(validate_operation_preconditions(&g, &d).is_empty());
    g.apply_delta(&d);
    assert!(validate_operation_postconditions(&g, &d).is_empty());
    assert_eq!(g.nodes().iter().map(|n| n.id.as_str()).collect::<Vec<_>>(), vec!["keep", "new"]);
}

#[test]
fn invalid_edge_endpoint_type_fails_validation() {
    let g = graph(
        vec![plain("spec", "Spec", "spec:AUTH-001"), plain("module", "Module", "module:Identity")],
        vec![Edge {
            id: "bad".to_string(),
            stable_key: "bad".to_string(),
            edge_type: "HAS_REQUIREMENT".to_string(),
            from: "spec".to_string(),
            to: "module".to_string(),
            attributes: Vec::new(),
        }],
    );
    let findings = MvpOntology::new().validate_integrity(&g);
    assert!(findings.iter().any(|f| f.code == "ontology.invalid_edge_endpoint_type"));
    let bad = findings.iter().find(|f| f.code == "ontology.invalid_edge_endpoint_type").unwrap();
    assert_eq!(bad.message, "Edge `bad` of type `HAS_REQUIREMENT` cannot connect `Spec` to `Module`");
}

#[test]
fn graph_validation_reports_spec_completeness() {
    let g = graph(vec![plain("spec", "Spec", "spec:AUTH-001")], vec![]);
    let ontology = MvpOntology::new();
    assert!(ontology.validate_integrity(&g).is_empty());
    let codes = ontology.validate_graph(&g).iter().map(|f| f.code.clone()).collect::<Vec<_>>();
    assert_eq!(codes, vec!["spec.has_requirement".to_string(), "spec.has_acceptance_criterion".to_string()]);
    let dangling = graph(vec![], vec![edge("e", "a", "NOT_A_TYPE", "b")]);
    let codes = ontology.validate_integrity(&dangling).iter().map(|f| f.code.clone()).collect::<Vec<_>>();
    assert_eq!(
        codes,
        vec![
            "ontology.invalid_edge_type".to_string(),
            "ontology.missing_edge_from".to_string(),
            "ontology.missing_edge_to".to_string()
        ]
    );
}

fn inferred(relation: &str, source: &str, target: &str, confidence: f64, trust_state: &str) -> InferredLinkFacts {
    InferredLinkFacts {
        relation: relation.to_string(),
        source: source.to_string(),
        target: target.to_string(),
        confidence_in_range: (0.0..=1.0).contains(&confidence) && confidence != 0.0,
        trust_state: trust_state.to_string(),
    }
}

fn empty_links() -> LinksManifest {
    LinksManifest {
        links: vec![],
        code_use_cases: vec![],
        routes: vec![],
        behavior_tests: vec![],
        risk_tests: vec![],
        annotations: vec![],
        inferred: vec![],
    }
}

#[test]
fn reports_missing_acceptance_test_link() {
    let g = graph(vec![plain("ac", "AcceptanceCriterion", "acceptance-criterion:AUTH-001/AC-001")], vec![]);
    let findings = validate_trace_links(&g, &empty_links());
    assert!(findings.iter().any(|f| f.code == "trace.acceptance_criterion_missing_test"));
}

#[test]
fn validates_manifest_annotation_and_inferred_links() {
    let g = graph(
        vec![
            plain("ac", "AcceptanceCriterion", "acceptance-criterion:AUTH-001/AC-001"),
            plain("test", "TestCase", "test-case:tests/auth.spec.ts::reset"),
            plain("symbol", "CodeSymbol", "code-symbol:src/auth.ts/function/resetPassword"),
            plain("route", "CodeRoute", "code-route:POST-/password-reset"),
            plain("uc", "UseCase", "use-case:AUTH-001/UC-001"),
            plain("endpoint", "Endpoint", "endpoint:AUTH-001/POST-/password-reset"),
            plain("behavior", "Behavior", "behavior:AUTH-001/BEH-001"),
            plain("risk", "Risk", "risk:AUTH-001/RISK-001"),
        ],
        vec![],
    );
    let manifest = LinksManifest {
        links: vec![TestLink {
            test: "tests/auth.spec.ts::reset".to_string(),
            acceptance_criterion: "AUTH-001/AC-001".to_string(),
        }],
        code_use_cases: vec![CodeUseCaseLink {
            code_symbol: "src/auth.ts/function/resetPassword".to_string(),
            use_case: "AUTH-001/UC-001".to_string(),
        }],
        routes: vec![RouteEndpointLink {
            route: "POST-/password-reset".to_string(),
            endpoint: "AUTH-001/POST-/password-reset".to_string(),
        }],
        behavior_tests: vec![BehaviorTestLink {
            test: "tests/auth.spec.ts::reset".to_string(),
            behavior: "AUTH-001/BEH-001".to_string(),
        }],
        risk_tests: vec![RiskTestLink {
            test: "tests/auth.spec.ts::reset".to_string(),
            risk: "AUTH-001/RISK-001".to_string(),
        }],
        annotations: vec![AnnotationLink {
            file: "src/auth.ts".to_string(),
            line: 12,
            relation: "implements-use-case".to_string(),
            source: "src/auth.ts/function/resetPassword".to_string(),
            target: "AUTH-001/UC-001".to_string(),
        }],
        inferred: vec![inferred("route-endpoint", "POST-/password-reset", "AUTH-001/POST-/password-reset", 0.91, "Inferred")],
    };
    assert!(validate_trace_links(&g, &manifest).is_empty());
}

#[test]
fn rejects_unknown_and_trusted_inferred_links() {
    let mut manifest = empty_links();
    manifest.code_use_cases = vec![CodeUseCaseLink { code_symbol: "missing".to_string(), use_case: "AUTH-001/UC-001".to_string() }];
    manifest.inferred = vec![inferred("route-endpoint", "POST-/password-reset", "AUTH-001/POST-/password-reset", 1.1, "Trusted")];
    let findings = validate_trace_links(&Graph::new(), &manifest);
    for code in ["trace.unknown_code_symbol", "trace.inferred_confidence_invalid", "trace.inferred_trust_state_invalid"] {
        assert!(findings.iter().any(|f| f.code == code), "{code}");
    }
}

fn item(id: &str, t: &str) -> TextItem {
    TextItem { id: id.to_string(), text: t.to_string() }
}

#[test]
fn spec_projection_builds_expected_nodes_and_edges() {
    let spec = SpecProjection {
        spec: "AUTH-001".to_string(),
        title: "Password reset".to_string(),
        module: Some("Identity".to_string()),
        priority: Some("P1".to_string()),
        summary: None,
        requirements: vec![item("REQ-001", "User can request reset")],
        acceptance_criteria: vec![item("AC-001", "Generic response")],
        risks: vec![item("RISK-001", "Token leakage")],
        mitigations: vec![item("MIT-001", "Use single-use tokens")],
        expected_behaviors: vec![item("BEH-001", "Always return generic response")],
        forbidden_behaviors: vec![item("FB-001", "Reveal account existence")],
        use_cases: vec![item("UC-001", "Request password reset")],
        endpoints: vec![item("POST-/password-reset", "POST /password-reset")],
        entities: vec![item("User", "User aggregate")],
        events: vec![item("PasswordResetRequested", "Reset requested")],
        data_objects: vec![item("PasswordResetToken", "Token table")],
        tests: vec![item("tests/auth.spec.ts::reset", "Reset test")],
    };
    let delta = spec.to_delta();
    assert!(delta.create_nodes.len() > 4);
    assert!(delta.create_edges.len() > 4);
    for t in ["HAS_REQUIREMENT", "HAS_ACCEPTANCE_CRITERION", "HAS_RISK", "HAS_ENDPOINT", "HAS_DATA_OBJECT"] {
        assert!(delta.create_edges.iter().any(|e| e.edge_type == t), "{t}");
    }
}

fn issue(id: &str, state: &str) -> Node {
    node(id, &format!("issue:{id}"), "Issue", vec![("kind", text("Bug")), ("state", text(state))])
}

#[test]
fn bug_without_evidence_is_blocked() {
    let g = graph(vec![issue("issue_1", "Open")], vec![]);
    let report = validate_issue_lifecycle(&g, "issue_1");
    assert!(!report.can_close);
    assert!(report.findings.iter().any(|f| f.code == "issue.reproduction_required"));
    assert!(report.findings.iter().any(|f| f.code == "issue.failing_test_required"));
}

#[test]
fn bug_with_required_evidence_can_close() {
    let mut nodes = vec![issue("issue_1", "Closed")];
    let mut edges = vec![];
    for (id, node_type) in [
        ("repro_1", "ReproductionStep"),
        ("failing_test_1", "FailingTest"),
        ("root_cause_1", "RootCause"),
        ("fix_spec_1", "FixSpec"),
        ("regression_1", "RegressionTest"),
        ("closure_1", "ClosureEvidence"),
    ] {
        nodes.push(plain(id, node_type, &format!("{}:{id}", node_type.to_ascii_lowercase())));
        edges.push(Edge {
            id: format!("edge_issue_1_HAS_ISSUE_EVIDENCE_{id}"),
            ..edge("x", "issue_1", "HAS_ISSUE_EVIDENCE", id)
        });
    }
    let g = graph(nodes, edges);
    let report = validate_issue_lifecycle(&g, "issue_1");
    assert!(report.findings.is_empty());
    assert!(report.can_close);
}

fn migration_plan() -> MigrationPlan {
    MigrationPlan {
        id: "20260509_add_users".to_string(),
        owner_module: "identity".to_string(),
        affected_tables: vec!["users".to_string()],
        rollback: RollbackPlan { strategy: "down-migration".to_string(), command: "sqlx migrate revert".to_string() },
        tests: vec![MigrationTestEvidence { name: "migration applies".to_string(), status: "Passed".to_string() }],
        approval_id: "APPROVAL-001".to_string(),
    }
}

#[test]
fn migration_runtime_migration_plan_records_required_runtime_evidence() {
    let delta = migration_plan().to_delta();
    assert!(delta.create_nodes.iter().any(|n| n.node_type == "Migration"));
    assert!(delta.create_edges.iter().any(|e| e.edge_type == "HAS_ROLLBACK_PLAN"));
    assert!(delta.create_nodes.iter().all(|n| !n.node_type.is_empty()));
    assert!(!MvpOntology::new().is_node_type("Migration"));
    let ontology = MvpOntology::new().with_extensions(
        ["Migration", "RollbackPlan", "MigrationTestEvidence", "Table"].iter().map(|t| t.to_string()).collect(),
        vec![],
    );
    assert!(delta.create_nodes.iter().all(|n| ontology.is_node_type(&n.node_type)));
}

#[test]
fn migration_runtime_migration_requires_evidence_before_execution() {
    let g = graph(vec![plain("node_migration_missing", "Migration", "migration:missing")], vec![]);
    let findings = validate_migration_runtime(&g);
    assert!(findings.len() >= 4);
    assert!(findings.iter().any(|f| f.code == "migration_runtime.evidence_required"));
    assert!(findings.iter().any(|f| f.code == "migration_runtime.impact_revalidation_required"));
    assert_eq!(findings.len(), 6);
    assert_eq!(
        findings[0].message,
        "Migration `node_migration_missing` requires `OWNED_BY_MODULE` evidence. Remediation: add the required graph evidence before execution."
    );
}

#[test]
fn migration_plan_delta_applies_cleanly_and_satisfies_evidence() {
    let delta = migration_plan().to_delta();
    let mut g = Graph::new();
    g.apply_delta(&delta);
    let findings = validate_migration_runtime(&g);
    let codes = findings.iter().map(|f| f.code.as_str()).collect::<Vec<_>>();
    assert_eq!(codes, vec!["migration_runtime.impact_revalidation_required"]);
}

#[test]
fn observes_sql_migration_changes_and_classifies_risk() {
    let observation = observe_migration_file(
        "migrations/001_users.sql",
        "\nCREATE TABLE users (id uuid primary key);\nALTER TABLE users ADD COLUMN email text;\nCREATE INDEX users_email_idx ON users (email);\n",
    );
    assert_eq!(observation.parser, "sql");
    assert_eq!(observation.risk_classification, "additive");
    assert!(observation.affected_tables.contains(&"users".to_string()));
    assert!(observation.changes.iter().any(|c| c.kind == "createTable"));
    let delta = observation.to_delta();
    assert!(delta
        .create_nodes
        .iter()
        .any(|n| n.node_type == "Migration" && attr_str(n, "sourceTrust") == Some("Observation")));
    assert!(delta.create_nodes.iter().any(|n| n.node_type == "Table"));
}

#[test]
fn destructive_non_observed_migration_requires_policy_evidence() {
    let g = graph(
        vec![node(
            "node_migration_drop",
            "migration:drop-users",
            "Migration",
            vec![("destructive", JsonValue::Bool(true)), ("riskClassification", text("destructive"))],
        )],
        vec![],
    );
    let findings = validate_migration_runtime(&g);
    assert!(findings.iter().any(|f| f.code == "migration_runtime.evidence_required"));

    let observed = observe_migration_file("migrations/003_drop.sql", "DROP TABLE users;");
    let mut observed_graph = Graph::new();
    observed_graph.apply_delta(&observed.to_delta());
    assert!(validate_migration_runtime(&observed_graph).is_empty());
}

#[test]
fn additive_migration_needs_no_policy_evidence() {
    let g = graph(
        vec![node("m", "migration:add", "Migration", vec![("riskClassification", text("additive"))])],
        vec![],
    );
    assert!(validate_migration_runtime(&g).is_empty());
}

fn sample_modules() -> ModuleGraphProjection {
    ModuleGraphProjection {
        project_node_id: "node_project".to_string(),
        modules: vec![ModuleDefinition {
            name: "Identity".to_string(),
            purpose: "Owns authentication and identity workflows".to_string(),
            layer: "Application".to_string(),
            package: "crates/identity".to_string(),
            capabilities: vec!["password-reset".to_string()],
            interfaces: vec![ModuleInterface {
                name: "PasswordResetService".to_string(),
                visibility: InterfaceVisibility::Public,
                surface: "service".to_string(),
            }],
        }],
    }
}

fn project_graph() -> Graph {
    graph(vec![node("node_project", "project:demo", "Project", vec![("name", text("demo"))])], vec![])
}

#[test]
fn module_graph_projection_models_layers_packages_capabilities_and_interfaces() {
    let delta = sample_modules().to_delta();
    assert!(delta.create_nodes.iter().any(|n| n.node_type == "Layer"));
    assert!(delta.create_nodes.iter().any(|n| n.node_type == "Package"));
    assert!(delta.create_edges.iter().any(|e| e.edge_type == "HAS_MODULE"));
    assert!(delta.create_edges.iter().any(|e| e.edge_type == "EXPOSES_INTERFACE"));
    assert!(delta.create_nodes.iter().all(|n| !n.node_type.is_empty()));
}

#[test]
fn module_baseline_reports_missing_modules() {
    let report = validate_module_baseline(&project_graph());
    assert!(!report.complete);
    assert_eq!(report.module_count, 0);
    assert!(report.missing.contains(&"HAS_MODULE".to_string()));
    assert!(report.findings.iter().any(|f| f.code == "module.baseline_incomplete"));
    assert_eq!(
        report.findings[0].message,
        "Spec authoring requires a complete ModuleGraph baseline. Missing: HAS_MODULE."
    );
}

#[test]
fn module_baseline_without_project_reports_project() {
    let report = validate_module_baseline(&Graph::new());
    assert_eq!(report.project_node_id, None);
    assert_eq!(report.missing, vec!["Project".to_string()]);
    assert_eq!(report.findings.len(), 1);
}

#[test]
fn module_baseline_passes_for_complete_module() {
    let mut g = project_graph();
    g.apply_delta(&sample_modules().to_delta());
    let report = validate_module_baseline(&g);
    assert!(report.complete);
    assert_eq!(report.module_count, 1);
    assert!(report.missing.is_empty());
    assert!(report.findings.is_empty());
    let definition = module_definition_from_graph(&g, "Identity").unwrap();
    assert_eq!(definition, sample_modules().modules[0]);
}

#[test]
fn module_upsert_delta_avoids_duplicate_existing_facts() {
    let mut g = project_graph();
    g.apply_delta(&sample_modules().to_delta());
    let delta = sample_modules().to_upsert_delta(&g);
    assert!(delta.create_nodes.is_empty());
    assert!(delta.update_nodes.is_empty());
    assert!(delta.create_edges.is_empty());
    let mut changed = sample_modules();
    changed.modules[0].purpose = "Something else".to_string();
    let delta = changed.to_upsert_delta(&g);
    assert_eq!(delta.update_nodes.len(), 1);
    assert_eq!(delta.update_nodes[0].id, "node_module_identity");
}

fn full_git_projection() -> GitGraphProjection {
    GitGraphProjection {
        project_node_id: "node_project".into(),
        remotes: vec![GitRemoteFact { name: "origin".into(), url: "git@example.com:repo.git".into() }],
        branches: vec![GitBranchFact { name: "development".into(), head: Some("abc123".into()), remote: Some("origin".into()) }],
        commits: vec![GitCommitFact { sha: "abc123".into(), parent_shas: vec!["def456".into()], message: Some("feat".into()) }],
        tags: vec![GitTagFact { name: "v0.1.0".into(), target: "abc123".into() }],
        merges: vec![GitMergeFact { id: "m1".into(), base: "def456".into(), head: "abc123".into(), result: "fed789".into() }],
        releases: vec![GitReleaseFact {
            version: "v0.1.0".into(),
            tag: "v0.1.0".into(),
            commit: "abc123".into(),
            spec: Some("AUTH-001".into()),
            validation_run_id: Some("release-1".into()),
            url: Some("https://example.test/releases/v0.1.0".into()),
            evidence_path: Some("dist/specgraph-release-evidence.json".into()),
            evidence_file_hash: Some("sha256:evidence".into()),
            graph_snapshot_id: Some("snapshot-1".into()),
            artifacts: vec![ReleaseArtifactFact {
                path: "dist/specgraph.tar.gz".into(),
                platform: "source".into(),
                checksum_algorithm: "sha256".into(),
                checksum_value: "abc123".into(),
                evidence_file_hash: "sha256:evidence".into(),
            }],
        }],
        pull_requests: vec![PullRequestFact {
            provider: "github".into(),
            number: "1".into(),
            branch: "feature".into(),
            target_branch: "development".into(),
            state: "open".into(),
            title: Some("Add feature".into()),
            url: Some("https://example.test/pr/1".into()),
            author: Some("onur".into()),
            head_sha: Some("abc123".into()),
            base_sha: Some("def456".into()),
            validation_run_id: Some("ci-1".into()),
            observed_by: Some("adapter:github".into()),
            observed_at: None,
        }],
    }
}

#[test]
fn git_graph_git_graph_projection_models_repo_facts() {
    let delta = full_git_projection().to_delta();
    for t in ["GitRemote", "PullRequest", "Release", "ReleaseArtifact", "ArtifactChecksum"] {
        assert!(delta.create_nodes.iter().any(|n| n.node_type == t), "{t}");
    }
    for t in ["RELEASES_COMMIT", "RELEASE_HAS_ARTIFACT", "RELEASE_HAS_CHECKSUM", "RELEASE_HAS_SNAPSHOT", "PR_HEAD_COMMIT", "PR_HAS_VALIDATION_RUN"] {
        assert!(delta.create_edges.iter().any(|e| e.edge_type == t), "{t}");
    }
    assert!(delta.create_nodes.iter().all(|n| !n.node_type.is_empty()));
}

fn pr_projection() -> GitGraphProjection {
    GitGraphProjection {
        project_node_id: "node_project".into(),
        remotes: vec![],
        branches: vec![],
        commits: vec![],
        tags: vec![],
        merges: vec![],
        releases: vec![],
        pull_requests: vec![PullRequestFact {
            provider: "github".into(),
            number: "2".into(),
            branch: "feature".into(),
            target_branch: "development".into(),
            state: "open".into(),
            ..PullRequestFact::default()
        }],
    }
}

#[test]
fn pr_hosting_validation_requires_observed_trust_and_branch_links() {
    let delta = pr_projection().to_delta();
    let mut g = Graph::new();
    g.apply_delta(&delta);
    assert!(validate_pr_hosting_graph(&g).is_empty());
    let pr_id = pull_request_node_id("github", "2");
    let mut tampered = delta;
    for n in tampered.create_nodes.iter_mut() {
        if n.id == pr_id {
            for (k, v) in n.attributes.iter_mut() {
                if k == "trustState" {
                    *v = text("Trusted");
                }
            }
        }
    }
    let mut g = Graph::new();
    g.apply_delta(&tampered);
    assert!(validate_pr_hosting_graph(&g).iter().any(|f| f.code == "pr_hosting.trust_boundary"));
}

fn commit_input(changed_files: &[&str], changed_symbols: &[&str]) -> CommitValidationInput {
    CommitValidationInput {
        commit: "abc123".to_string(),
        message: "feat: test".to_string(),
        changed_files: changed_files.iter().map(|f| f.to_string()).collect(),
        changed_symbols: changed_symbols.iter().map(|s| s.to_string()).collect(),
    }
}

fn no_trailers() -> CommitTrailers {
    CommitTrailers { spec: None, action_group: None, commit_plan: None, graph_delta: None }
}

fn texts_value(items: &[&str]) -> JsonValue {
    JsonValue::Array(items.iter().map(|i| text(i)).collect())
}

#[test]
fn commit_plan_rejects_symbol_outside_allowed_declarations() {
    let plan = node(
        "node_commit_plan",
        "commit-plan:AUTH-001/implementation",
        "CommitPlan",
        vec![("allowedSymbols", texts_value(&["requestPasswordReset"]))],
    );
    let input = commit_input(&["src/identity/password-reset.rs"], &["createDuplicateReset"]);
    let findings = validate_commit_plan_requirements(&Graph::new(), &plan, &input, &no_trailers(), &None);
    assert!(findings.iter().any(|f| f.code == "commit_plan.undeclared_symbol"));
}

#[test]
fn commit_plan_requires_graph_delta_trailer_when_expected() {
    let plan = node(
        "node_commit_plan",
        "commit-plan:AUTH-001/implementation",
        "CommitPlan",
        vec![("expectedGraphDelta", JsonValue::Bool(true))],
    );
    let findings = validate_commit_plan_requirements(&Graph::new(), &plan, &commit_input(&[], &[]), &no_trailers(), &None);
    assert!(findings.iter().any(|f| f.code == "commit_plan.graph_delta_trailer_missing"));
}

#[test]
fn commit_plan_rejects_unexpected_delta_and_forbidden_delete() {
    let plan = node(
        "node_commit_plan",
        "commit-plan:AUTH-001/graph",
        "CommitPlan",
        vec![
            ("expectedEdgeTypes", texts_value(&["HAS_REQUIREMENT"])),
            ("expectedNodeTypes", texts_value(&["Spec"])),
            ("forbiddenEffects", texts_value(&["deleteNodes"])),
        ],
    );
    let mut delta = GraphDelta::empty();
    delta.create_nodes = vec![plain("node_code_file", "CodeFile", "code-file:src/lib.rs")];
    delta.delete_nodes = vec!["node_old".to_string()];
    let trailers = CommitTrailers { graph_delta: Some("{\"createNodes\":[]}".to_string()), ..no_trailers() };
    let findings = validate_commit_plan_requirements(&Graph::new(), &plan, &commit_input(&[], &[]), &trailers, &Some(delta));
    assert!(findings.iter().any(|f| f.code == "commit_plan.unexpected_node_type"));
    assert!(findings.iter().any(|f| f.code == "commit_plan.forbidden_effect"));
    let unparsed = validate_commit_plan_requirements(&Graph::new(), &plan, &commit_input(&[], &[]), &trailers, &None);
    assert_eq!(unparsed.len(), 1);
    assert_eq!(unparsed[0].code, "commit_plan.graph_delta_invalid");
}

#[test]
fn commit_plan_scopes_files_and_requires_validation() {
    let plan = node(
        "node_commit_plan",
        "commit-plan:AUTH-001/tests",
        "CommitPlan",
        vec![("allowedFiles", texts_value(&["tests/**"])), ("requiredValidation", texts_value(&["trace"]))],
    );
    let findings = validate_commit_plan_requirements(
        &Graph::new(),
        &plan,
        &commit_input(&["tests/a.rs", "src/lib.rs"], &[]),
        &no_trailers(),
        &None,
    );
    let messages = findings.iter().map(|f| f.message.as_str()).collect::<Vec<_>>();
    assert_eq!(
        messages,
        vec![
            "Changed file `src/lib.rs` is outside CommitPlan allowedFiles",
            "Commit `abc123` requires passed validation `trace` before using CommitPlan `node_commit_plan`",
        ]
    );
    let runs = graph(
        vec![node(
            "run",
            "validation-run:1",
            "ValidationRun",
            vec![("checks", texts_value(&["trace"])), ("status", text("Passed"))],
        )],
        vec![],
    );
    let findings = validate_commit_plan_requirements(&runs, &plan, &commit_input(&["tests/a.rs"], &[]), &no_trailers(), &None);
    assert!(findings.is_empty());
}

#[test]
fn commit_binding_reports_missing_trailers_and_unknown_spec() {
    let input = CommitValidationInput { message: "feat: nothing".to_string(), ..commit_input(&[], &[]) };
    let findings = validate_commit_binding(&Graph::new(), &input, &None);
    assert_eq!(findings.len(), 3);
    assert!(findings.iter().all(|f| f.code == "commit.missing_trailer"));
    let input = CommitValidationInput {
        message: "feat\n\nSpec: AUTH-001\nActionGroup: implementation\nCommitPlan: implementation\n".to_string(),
        ..commit_input(&[], &[])
    };
    let findings = validate_commit_binding(&Graph::new(), &input, &None);
    assert_eq!(findings.len(), 1);
    assert_eq!(findings[0].message, "Commit `abc123` references unknown Spec `AUTH-001`");
}

#[test]
fn commit_binding_follows_generated_action_graph() {
    let mut g = graph(
        vec![node("node_spec_auth-001", "spec:AUTH-001", "Spec", vec![("spec", text("AUTH-001"))])],
        vec![],
    );
    g.apply_delta(&action_graph_delta("AUTH-001", "node_spec_auth-001"));
    let input = CommitValidationInput {
        message: "feat\n\nSpec: AUTH-001\nActionGroup: implementation\nCommitPlan: implementation\n".to_string(),
        ..commit_input(&["src/auth.rs", "README.md"], &[])
    };
    let findings = validate_commit_binding(&g, &input, &None);
    let codes = findings.iter().map(|f| f.code.as_str()).collect::<Vec<_>>();
    assert_eq!(codes, vec!["code_scope.out_of_scope_file", "commit_plan.out_of_scope_file"]);
    assert_eq!(findings[0].message, "Changed file `README.md` is outside ActionGroup allowed paths");
    let found = find_action_group_and_commit_plan(
        &g,
        &"node_spec_auth-001".to_string(),
        &"tests".to_string(),
        &"tests".to_string(),
    );
    assert_eq!(
        found,
        Some(("node_action_group_auth_001_tests".to_string(), "node_commit_plan_auth_001_tests".to_string()))
    );
}

#[test]
fn changed_files_outside_action_group_scope() {
    let g = graph(vec![], vec![]);
    let findings = validate_changed_files_against_action_group(&g, "group", &vec!["a.rs".to_string()]);
    assert_eq!(findings.len(), 1);
    assert_eq!(findings[0].code, "code_scope.no_allowed_paths");
    assert!(validate_changed_files_against_action_group(&g, "group", &vec![]).is_empty());
}

#[test]
fn action_graph_delta_builds_five_groups() {
    let delta = action_graph_delta("AUTH-001", "node_spec");
    assert_eq!(delta.create_nodes.len(), 16);
    assert_eq!(delta.create_edges.len(), 16);
    assert_eq!(delta.create_nodes[0].id, "node_action_graph_auth_001");
    assert_eq!(delta.create_nodes[0].stable_key, "action-graph:AUTH-001");
    let names = delta
        .create_nodes
        .iter()
        .filter(|n| n.node_type == "ActionGroup")
        .map(|n| attr_str(n, "name").unwrap())
        .collect::<Vec<_>>();
    assert_eq!(names, vec!["graph", "tests", "implementation", "interface", "validation"]);
    let graph_plan = &delta.create_nodes[3];
    assert_eq!(graph_plan.node_type, "CommitPlan");
    assert!(matches!(attr(graph_plan, "expectedGraphDelta"), Some(JsonValue::Bool(true))));
}

#[test]
fn action_lifecycle_blocks_completion_without_validation_evidence() {
    let g = graph(
        vec![node(
            "node_action_auth",
            "action-node:AUTH-001/implementation",
            "ActionNode",
            vec![("state", text("InProgress"))],
        )],
        vec![],
    );
    let blockers = action_lifecycle_blockers(&g, &"node_action_auth".to_string(), "Completed");
    assert!(blockers.iter().any(|b| b.contains("ValidationRun")));
}

#[test]
fn action_start_waits_for_dependencies() {
    let g = graph(
        vec![
            node("a", "action-node:X/a", "ActionNode", vec![("state", text("Ready"))]),
            node("b", "action-node:X/b", "ActionNode", vec![("state", text("InProgress"))]),
            node("c", "action-node:X/c", "ActionNode", vec![("state", text("Completed"))]),
        ],
        vec![edge("ab", "a", "DEPENDS_ON", "b"), edge("ac", "a", "DEPENDS_ON", "c")],
    );
    let blockers = action_lifecycle_blockers(&g, &"a".to_string(), "InProgress");
    assert_eq!(blockers, vec!["dependency action `b` must be Completed before `a` starts".to_string()]);
}

#[test]
fn spec_status_blocks_implementing_without_branch_and_action_graph() {
    let g = graph(
        vec![node(
            "node_spec_auth_001",
            "spec:AUTH-001",
            "Spec",
            vec![("spec", text("AUTH-001")), ("state", text("BranchBound"))],
        )],
        vec![],
    );
    let blockers = spec_state_blockers(&g, &"node_spec_auth_001".to_string(), "Implementing");
    assert!(blockers.iter().any(|b| b.contains("Git branch")));
    assert!(blockers.iter().any(|b| b.contains("ActionGraph")));
    assert_eq!(spec_state_blockers(&g, &"node_spec_auth_001".to_string(), "Validated").len(), 0);
    assert_eq!(spec_state_blockers(&g, &"node_spec_auth_001".to_string(), "Released").len(), 4);
}

#[test]
fn policy_changed_files_merge_input_and_code_files() {
    let mut delta = GraphDelta::empty();
    delta.create_nodes = vec![code_file("f1", "src/b.rs"), plain("s", "Spec", "spec:S")];
    delta.update_nodes = vec![code_file("f2", "src/a.rs")];
    let req = request(
        OPERATION_REQUEST_SCHEMA_VERSION,
        "Code.Index",
        "test",
        object(vec![("changedFiles", texts_value(&["src/b.rs", "docs/x.md"]))]),
    );
    assert_eq!(
        changed_files_for_policy(&req, &delta),
        vec!["docs/x.md".to_string(), "src/a.rs".to_string(), "src/b.rs".to_string()]
    );
}

#[test]
fn records_for_identity_and_policy_evidence() {
    let role = role_node("admin");
    assert_eq!(role.id, "node_role_admin");
    assert_eq!(role.stable_key, "role:admin");
    let approval = approval_node(&RecordApprovalOptions {
        approval_id: "APR-1".to_string(),
        approval: "data-migration".to_string(),
        policy: None,
        scope: Some("db".to_string()),
        reason: None,
        approved_by: "alice".to_string(),
        actor: "test".to_string(),
        graph_branch: "main".to_string(),
    });
    let keys = approval.attributes.iter().map(|(k, _)| k.as_str()).collect::<Vec<_>>();
    assert_eq!(keys, vec!["approval", "approvalId", "approvedBy", "scope"]);
    let g = graph(
        vec![node("node_actor_x", "actor:alice", "Actor", vec![]), node("other", "actor:bob", "Actor", vec![("actorId", text("carol"))])],
        vec![],
    );
    assert_eq!(find_actor_node_id(&g, "alice"), Some("node_actor_x".to_string()));
    assert_eq!(find_actor_node_id(&g, "carol"), Some("other".to_string()));
    assert_eq!(find_actor_node_id(&g, "dave"), None);
}

#[test]
fn git_graph_projection_models_repo_facts() {
    let mut projection = full_git_projection();
    projection.releases = vec![];
    let delta = projection.to_delta();
    assert!(delta.create_nodes.iter().any(|node| node.node_type == "GitRemote"));
    assert!(delta.create_nodes.iter().any(|node| node.node_type == "PullRequest"));
    assert!(!MvpOntology::new().is_node_type("GitRemote"));
    let ontology = MvpOntology::new().with_extensions(
        ["GitRemote", "GitTag", "GitMerge", "PullRequest"].iter().map(|t| t.to_string()).collect(),
        vec![],
    );
    assert!(delta.create_nodes.iter().all(|node| ontology.is_node_type(&node.node_type)));
}

#[test]
fn core_ontology_registers_the_mvp_types() {
    let o = MvpOntology::new();
    assert_eq!(o.node_types().len(), 36);
    assert_eq!(o.edge_types().len(), 28);
    assert!(o.is_node_type("Spec") && o.is_node_type("RevalidationQueue"));
    assert!(!o.is_node_type("Risk") && !o.is_node_type("CodeRoute") && !o.is_node_type("Table"));
    assert!(o.is_edge_type("BASELINE_IN") && !o.is_edge_type("HAS_RISK"));
}

#[test]
fn impact_at_depth_zero_is_the_roots_alone() {
    let g = chain_graph();
    let analysis = analyze_impact(&g, vec!["node_spec".to_string(), "node_missing".to_string()], 0);
    assert_eq!(analysis.impacted_nodes, vec!["node_spec".to_string()]);
    assert!(analysis.traversed_edges.is_empty());
    let deeper = analyze_impact(&g, vec!["node_spec".to_string()], 1);
    assert_eq!(deeper.impacted_nodes, vec!["node_action".to_string(), "node_spec".to_string()]);
    assert_eq!(deeper.traversed_edges, vec!["edge_spec_action".to_string()]);
}

#[test]
fn precondition_and_postcondition_findings_are_counted_per_id() {
    let g = graph(vec![plain("node_a", "Spec", "spec:A")], vec![]);
    let mut d = GraphDelta::empty();
    d.create_nodes = vec![plain("node_a", "Spec", "spec:A"), plain("node_b", "Spec", "spec:B")];
    d.update_nodes = vec![plain("node_c", "Spec", "spec:C"), plain("node_a", "Spec", "spec:A")];
    d.delete_nodes = vec!["node_d".to_string(), "node_e".to_string()];
    assert_eq!(validate_operation_preconditions(&g, &d).len(), 1 + 1 + 2);
    let after = validate_operation_postconditions(&Graph::new(), &d);
    assert_eq!(after.len(), 4);
    assert!(after.iter().all(|f| f.code == "operation.postcondition.node_not_present"));
}
