use specgraph::architecture_pack::{validate_architecture_pack, ArchitecturePack, ForbiddenDependencyRule};
use specgraph::code_indexer::{
    index_source_file, observations_to_delta, validate_code_index_observations, CodeIndexObservation,
    CodeIndexer, CodeSymbolObservation, FrameworkAwareCodeIndexer,
};
use specgraph::model::JsonValue;
use specgraph::git::parse_commit_trailers;
use specgraph::migration_runtime::observe_migration_file;
use specgraph::model::FindingSeverity;
use specgraph::ontology_pack::{
    plan_pack_migration, validate_pack, OntologyMigration, OntologyMigrationAction,
    OntologyPackManifest, OntologyPackSignature, OntologyPackSource,
};
use specgraph::operation_abi::{built_in_operations, find_operation, OPERATION_DEFINITION_SCHEMA_VERSION};
use specgraph::stable_key::validate_stable_key;
use specgraph::validation::{
    built_in_validators, find_validator, ValidatorExecution, ValidatorExecutionStatus,
    CORE_VALIDATOR_VERSION, VALIDATOR_ONTOLOGY, VALIDATOR_OPERATION_ABI, VALIDATOR_POLICY,
};

#[test]
fn indexes_typescript_symbols() {
    let observation = index_source_file(
        "src/user.ts",
        r#"
import { repo } from "./repo";
export interface UserRepository {}
export class UserService {}
export const resetPassword = async () => {};
function helper() {}
"#,
    );

    assert_eq!(observation.language, "typescript");
    assert_eq!(observation.imports.len(), 1);
    assert!(observation
        .symbols
        .iter()
        .any(|symbol| symbol.kind == "interface" && symbol.name == "UserRepository"));
    assert!(observation
        .symbols
        .iter()
        .any(|symbol| symbol.kind == "class" && symbol.name == "UserService"));
    assert!(observation
        .symbols
        .iter()
        .any(|symbol| symbol.kind == "function" && symbol.name == "resetPassword"));
    assert!(observation
        .symbols
        .iter()
        .any(|symbol| symbol.kind == "function" && symbol.name == "helper"));
}

#[test]
fn observation_validation_requires_source_locations() {
    let findings = validate_code_index_observations(&[CodeIndexObservation {
        file: "src/app.js".to_string(),
        language: "javascript".to_string(),
        framework: Some("express".to_string()),
        generated: false,
        symbols: vec![CodeSymbolObservation {
            name: "handler".to_string(),
            kind: "function".to_string(),
            line: None,
            location: None,
        }],
        imports: Vec::new(),
        routes: Vec::new(),
    }]);

    assert!(findings
        .iter()
        .any(|finding| finding.code == "code_indexer.symbol_location_required"));
}

#[test]
fn git_parses_required_trailers() {
    let trailers = parse_commit_trailers(
        "feat: demo\n\nBody\n\nSpec: AUTH-001\nActionGroup: implementation\nCommitPlan: implementation\n",
    );
    assert_eq!(trailers.spec.as_deref(), Some("AUTH-001"));
    assert_eq!(trailers.action_group.as_deref(), Some("implementation"));
    assert_eq!(trailers.commit_plan.as_deref(), Some("implementation"));
}

#[test]
fn parses_required_trailers() {
    let trailers = parse_commit_trailers(
        "feat: demo\n\nBody\n\nSpec: AUTH-001\nActionGroup: implementation\nCommitPlan: implementation\n",
    );
    assert_eq!(trailers.spec.as_deref(), Some("AUTH-001"));
    assert_eq!(trailers.action_group.as_deref(), Some("implementation"));
    assert_eq!(trailers.commit_plan.as_deref(), Some("implementation"));
}

fn local_signature() -> OntologyPackSignature {
    OntologyPackSignature {
        algorithm: "unsigned-dev".to_string(),
        value: "unsigned-dev".to_string(),
        signed_by: "local-dev".to_string(),
    }
}

#[test]
fn validates_required_pack_identity() {
    let report = validate_pack(&OntologyPackManifest {
        name: String::new(),
        version: String::new(),
        source: None,
        signature: None,
        extends: vec![],
        node_types: vec![],
        edge_types: vec![],
        validators: vec![],
        policies: vec![],
        migrations: vec![],
    });
    assert_eq!(
        report
            .findings
            .iter()
            .filter(|finding| finding.severity == FindingSeverity::Error)
            .count(),
        2
    );
}

#[test]
fn accepts_valid_extension_pack() {
    let report = validate_pack(&OntologyPackManifest {
        name: "ddd-backend".to_string(),
        version: "0.1.0".to_string(),
        source: Some(OntologyPackSource {
            kind: "local".to_string(),
            uri: "docs/ontology-packs/ddd-backend.yaml".to_string(),
        }),
        signature: Some(local_signature()),
        extends: vec!["core@0.1.0".to_string()],
        node_types: vec!["Aggregate".to_string()],
        edge_types: vec!["OWNS_AGGREGATE".to_string()],
        validators: vec![],
        policies: vec![],
        migrations: vec![OntologyMigration {
            from: "0.1.0".to_string(),
            to: "0.2.0".to_string(),
            description: "Add aggregate ownership rules".to_string(),
        }],
    });

    assert!(report
        .findings
        .iter()
        .all(|finding| finding.severity != FindingSeverity::Error));
}

#[test]
fn rejects_invalid_extension_pack_shape() {
    let report = validate_pack(&OntologyPackManifest {
        name: "bad-pack".to_string(),
        version: "latest".to_string(),
        source: None,
        signature: None,
        extends: vec![],
        node_types: vec!["aggregate".to_string(), "aggregate".to_string()],
        edge_types: vec!["ownsAggregate".to_string(), "ownsAggregate".to_string()],
        validators: vec![],
        policies: vec![],
        migrations: vec![OntologyMigration {
            from: "0.1.0".to_string(),
            to: "0.1.0".to_string(),
            description: String::new(),
        }],
    });

    for code in [
        "ontology_pack.version_invalid",
        "ontology_pack.duplicate_node_type",
        "ontology_pack.invalid_node_type_name",
        "ontology_pack.duplicate_edge_type",
        "ontology_pack.invalid_edge_type_name",
        "ontology_pack.migration_description_required",
        "ontology_pack.migration_noop",
    ] {
        assert!(
            report.findings.iter().any(|finding| finding.code == code),
            "{code}"
        );
    }
}

#[test]
fn validates_pack_source_and_signature_metadata() {
    let report = validate_pack(&OntologyPackManifest {
        name: "remote-pack".to_string(),
        version: "1.2.3".to_string(),
        source: Some(OntologyPackSource {
            kind: "registry".to_string(),
            uri: "https://packs.example/specgraph/remote-pack.yaml".to_string(),
        }),
        signature: Some(OntologyPackSignature {
            algorithm: "sha256".to_string(),
            value: "sha256:abc123".to_string(),
            signed_by: "SpecGraph Registry".to_string(),
        }),
        extends: vec!["core@0.1.0".to_string()],
        node_types: vec!["RemoteFact".to_string()],
        edge_types: vec!["USES_REMOTE_FACT".to_string()],
        validators: vec![],
        policies: vec![],
        migrations: vec![],
    });

    assert!(report
        .findings
        .iter()
        .all(|finding| finding.severity != FindingSeverity::Error));
}

#[test]
fn rejects_remote_pack_without_trusted_signature() {
    let report = validate_pack(&OntologyPackManifest {
        name: "remote-pack".to_string(),
        version: "1.2.3".to_string(),
        source: Some(OntologyPackSource {
            kind: "remote".to_string(),
            uri: "http://packs.example/remote-pack.yaml".to_string(),
        }),
        signature: Some(local_signature()),
        extends: vec!["core@0.1.0".to_string()],
        node_types: vec!["RemoteFact".to_string()],
        edge_types: vec!["USES_REMOTE_FACT".to_string()],
        validators: vec![],
        policies: vec![],
        migrations: vec![],
    });

    for code in [
        "ontology_pack.source_uri_insecure",
        "ontology_pack.signature_unsigned_remote",
    ] {
        assert!(
            report.findings.iter().any(|finding| finding.code == code),
            "{code}"
        );
    }
}

fn ddd_backend() -> OntologyPackManifest {
    OntologyPackManifest {
        name: "ddd-backend".to_string(),
        version: "0.1.0".to_string(),
        source: Some(OntologyPackSource {
            kind: "local".to_string(),
            uri: "ddd.yaml".to_string(),
        }),
        signature: Some(local_signature()),
        extends: vec!["core@0.1.0".to_string()],
        node_types: vec!["Aggregate".to_string()],
        edge_types: vec!["OWNS_AGGREGATE".to_string()],
        validators: vec![],
        policies: vec![],
        migrations: vec![],
    }
}

#[test]
fn plans_pack_upgrade_with_matching_migration() {
    let current = ddd_backend();
    let target = OntologyPackManifest {
        version: "0.2.0".to_string(),
        node_types: vec!["Aggregate".to_string(), "DomainEvent".to_string()],
        migrations: vec![OntologyMigration {
            from: "0.1.0".to_string(),
            to: "0.2.0".to_string(),
            description: "Add domain events".to_string(),
        }],
        ..current.clone()
    };

    let plan = plan_pack_migration(Some(&current), &target);

    assert_eq!(plan.action, OntologyMigrationAction::Upgrade);
    assert_eq!(plan.from_version.as_deref(), Some("0.1.0"));
    assert_eq!(plan.to_version, "0.2.0");
    assert_eq!(plan.migrations.len(), 1);
    assert!(plan
        .findings
        .iter()
        .all(|finding| finding.severity != FindingSeverity::Error));
}

#[test]
fn rejects_pack_upgrade_without_matching_migration() {
    let current = ddd_backend();
    let target = OntologyPackManifest {
        version: "0.2.0".to_string(),
        migrations: vec![],
        ..current.clone()
    };

    let plan = plan_pack_migration(Some(&current), &target);

    assert_eq!(plan.action, OntologyMigrationAction::Upgrade);
    assert!(plan
        .findings
        .iter()
        .any(|finding| finding.code == "ontology_pack.migration_missing"));
}

#[test]
fn operation_definitions_are_versioned() {
    assert_eq!(
        OPERATION_DEFINITION_SCHEMA_VERSION,
        "specgraph.operation-definition/v1"
    );
    assert!(built_in_operations()
        .iter()
        .all(|definition| definition.schema_version == OPERATION_DEFINITION_SCHEMA_VERSION));
}

#[test]
fn accepts_existing_stable_key_formats() {
    for value in [
        "project:demo",
        "module:Identity",
        "spec:AUTH-001",
        "requirement:AUTH-001/REQ-001",
        "acceptance-criterion:AUTH-001/AC-001",
        "code-file:src/identity/password-reset.js",
        "git-branch:spec/AUTH-001-password-reset",
        "graph-snapshot:sha256:abc123",
        "ontology-version:ddd-backend@0.1.0",
        "edge:node_spec_auth_001:HAS_REQUIREMENT:node_req_auth_001",
    ] {
        assert_eq!(validate_stable_key(value), Ok(()), "{value}");
    }
}

#[test]
fn rejects_missing_or_malformed_stable_keys() {
    for value in [
        "",
        "bad",
        ":AUTH-001",
        "Spec:AUTH-001",
        "spec:",
        "spec:AUTH 001",
        "spec:\nAUTH-001",
        "-spec:AUTH-001",
        "spec-:AUTH-001",
        "spec--id:AUTH-001",
    ] {
        assert!(validate_stable_key(value).is_err(), "{value:?}");
    }
}

#[test]
fn built_in_validator_registry_has_stable_ids_and_versions() {
    let validators = built_in_validators();
    assert!(validators
        .iter()
        .any(|validator| validator.id == VALIDATOR_POLICY));
    assert!(validators.iter().all(|validator| {
        validator.id.starts_with("validator.")
            && !validator.version.is_empty()
            && !validator.system_area.is_empty()
    }));
    assert_eq!(
        find_validator(VALIDATOR_OPERATION_ABI)
            .expect("operation ABI validator should exist")
            .version,
        CORE_VALIDATOR_VERSION
    );
}

#[test]
fn validator_execution_schema_records_lifecycle_input() {
    let execution = ValidatorExecution {
        run_id: "run-001".to_string(),
        validator: VALIDATOR_ONTOLOGY.to_string(),
        validator_version: CORE_VALIDATOR_VERSION.to_string(),
        status: ValidatorExecutionStatus::Passed,
        finding_count: 0,
    };

    assert_eq!(execution.validator, VALIDATOR_ONTOLOGY);
    assert_eq!(execution.status, ValidatorExecutionStatus::Passed);
}

#[test]
fn observes_framework_migrations_and_unsupported_formats() {
    let prisma = observe_migration_file(
        "prisma/schema.prisma",
        r#"
model User {
  id String @id
}
"#,
    );
    assert_eq!(prisma.parser, "prisma");
    assert!(prisma
        .changes
        .iter()
        .any(|change| change.kind == "createTable" && change.table.as_deref() == Some("User")));

    let knex = observe_migration_file(
        "migrations/002_drop_users.ts",
        "exports.up = (knex) => knex.schema.dropTable('users');",
    );
    assert_eq!(knex.parser, "knex");
    assert_eq!(knex.risk_classification, "destructive");
    assert!(knex.destructive);

    let unsupported = observe_migration_file("migrations/readme.txt", "manual step");
    assert_eq!(unsupported.parser, "unsupported");
    assert_eq!(unsupported.risk_classification, "unknown");
    assert!(!unsupported.findings.is_empty());
}

#[test]
fn find_operation_looks_up_built_ins_by_name() {
    assert!(find_operation("Unknown.Do").is_none());
    let create = find_operation("Spec.Create").expect("Spec.Create is built in");
    assert_eq!(create.name, "Spec.Create");
    assert_eq!(create.category, "spec");
    for definition in built_in_operations() {
        let found = find_operation(definition.name).expect("every built-in is found");
        assert_eq!(found.name, definition.name);
    }
}

#[test]
fn stable_key_accepts_only_prefix_colon_body() {
    assert!(validate_stable_key("spec:AUTH-001").is_ok());
    assert!(validate_stable_key("requirement:AUTH-001/REQ-001").is_ok());
    assert!(validate_stable_key("a:b:c").is_ok());
    assert!(validate_stable_key("spec").is_err());
    assert!(validate_stable_key("Spec:AUTH").is_err());
    assert!(validate_stable_key("spec--x:AUTH").is_err());
    assert!(validate_stable_key("spec-:AUTH").is_err());
    assert!(validate_stable_key("spec:AUTH 1").is_err());
    assert!(validate_stable_key("spec:").is_err());
}

#[test]
fn indexed_files_pass_location_validation() {
    let observation = index_source_file(
        "src/user.ts",
        "import { repo } from \"./repo\";\nexport class UserService {}\nfunction helper() {}\n",
    );
    assert!(!observation.symbols.is_empty());
    assert!(validate_code_index_observations(&[observation]).is_empty());
}

#[test]
fn counts_duplicate_node_types_and_flags_unparsable_versions() {
    let report = validate_pack(&OntologyPackManifest {
        name: "ext".to_string(),
        version: "1.2".to_string(),
        source: None,
        signature: None,
        extends: vec![],
        node_types: vec!["Alpha".to_string(), "Alpha".to_string(), "Beta".to_string(), "Alpha".to_string()],
        edge_types: vec![],
        validators: vec![],
        policies: vec![],
        migrations: vec![],
    });
    let count = |code: &str| report.findings.iter().filter(|f| f.code == code).count();
    assert_eq!(count("ontology_pack.duplicate_node_type"), 2);
    assert_eq!(count("ontology_pack.version_invalid"), 1);
    assert_eq!(count("ontology_pack.version_required"), 0);
}

#[test]
fn stable_fragments_are_canonical_and_idempotent() {
    assert_eq!(specgraph::ids::stable("Hello, World!!"), "hello-world");
    assert_eq!(specgraph::ids::stable("--AUTH__001--"), "auth-001");
    assert_eq!(specgraph::ids::stable("!!!"), "unknown");
    assert_eq!(specgraph::ids::stable(""), "unknown");
    for raw in ["Hello, World!!", "--AUTH__001--", "!!!", "spec/AUTH-001 Login"] {
        let once = specgraph::ids::stable(raw);
        assert_eq!(specgraph::ids::stable(&once), once);
    }
}

#[test]
fn architecture_pack_findings_are_counted_per_rule() {
    let rule = |from: &str, to: &str| ForbiddenDependencyRule {
        from_layer: from.to_string(),
        to_layer: to.to_string(),
        reason: "keep layers apart".to_string(),
    };
    let report = validate_architecture_pack(&ArchitecturePack {
        name: "layers".to_string(),
        version: "1.0.0".to_string(),
        forbidden_dependencies: vec![rule("domain", "domain"), rule("", "infra"), rule("ui", "db"), rule(" ", " ")],
    });
    let count = |code: &str| report.findings.iter().filter(|f| f.code == code).count();
    assert_eq!(count("architecture_pack.self_dependency_rule"), 2);
    assert_eq!(count("architecture_pack.boundary_layers_required"), 2);
    assert_eq!(report.findings.len(), 4);
}

#[test]
fn stable_fragment_examples() {
    assert_eq!(specgraph::ids::stable("Spec/AUTH-001"), "spec-auth-001");
    assert_eq!(specgraph::ids::stable("  / -- _ "), "unknown");
}

#[test]
fn installed_packs_extend_the_core_ontology() {
    let pack = OntologyPackManifest {
        name: "data".to_string(),
        version: "1.0.0".to_string(),
        source: None,
        signature: None,
        extends: vec![],
        node_types: vec!["Table".to_string(), "Column".to_string()],
        edge_types: vec!["OWNS_TABLE".to_string()],
        validators: vec![],
        policies: vec![],
        migrations: vec![],
    };
    let core = specgraph::ontology::MvpOntology::new();
    assert!(!core.is_node_type("Table"));
    let active = specgraph::pack_install::ontology_with_packs(&vec![pack]);
    assert!(active.is_node_type("Table") && active.is_node_type("Column") && active.is_node_type("Spec"));
    assert!(active.is_edge_type("OWNS_TABLE") && active.is_edge_type("HAS_REQUIREMENT"));
    assert_eq!(active.node_types().len(), 38);
}

#[test]
fn indexes_rust_symbols_and_delta_nodes() {
    let observation = index_source_file(
        "crates/demo/src/lib.rs",
        r#"
pub struct Store {}
pub(crate) struct PrivateStore {}
pub enum Event {}
pub trait Indexer {}
pub fn replay() {}
impl Store {}
"#,
    );
    let delta = observations_to_delta(&[observation.clone()]);

    assert_eq!(observation.language, "rust");
    assert_eq!(observation.symbols.len(), 6);
    assert!(delta.create_nodes.iter().any(|node| node.node_type == "CodeFile"));
    assert_eq!(delta.create_nodes.iter().filter(|node| node.node_type == "CodeSymbol").count(), 6);
}

#[test]
fn framework_indexer_extracts_express_routes_with_trust_and_locations() {
    let indexer = FrameworkAwareCodeIndexer;
    let observations = indexer.index_file(
        "src/routes/password-reset.js",
        r#"
const express = require("express");
const router = express.Router();
function resetPassword(req, res) {}
router.post("/password-reset", resetPassword);
"#,
    );
    let observation = &observations[0];
    assert_eq!(observation.framework.as_deref(), Some("express"));
    assert!(observation.routes.iter().any(|route| {
        route.method == "POST"
            && route.path == "/password-reset"
            && route.location.as_ref().and_then(|location| location.start_line) == Some(5)
    }));

    let delta = observations_to_delta(&observations);
    let route = delta.create_nodes.iter().find(|node| node.node_type == "CodeRoute").expect("route node");
    let trust = route.attributes.iter().find(|(k, _)| k == "trustState").map(|(_, v)| v);
    assert!(matches!(trust, Some(JsonValue::Text(t)) if t == "Observed"));
    assert!(delta.create_edges.iter().any(|edge| edge.edge_type == "DECLARES_ROUTE"));
}

#[test]
fn code_index_delta_keeps_the_first_fact_of_each_id() {
    let observation = index_source_file("src/lib.rs", "pub fn replay() {}\nuse crate::model;\n");
    let delta = observations_to_delta(&[observation.clone(), observation.clone()]);
    let file = delta.create_nodes.iter().find(|n| n.node_type == "CodeFile").expect("file node");
    assert_eq!(file.id, "node_code_file_src_lib_rs");
    assert_eq!(file.stable_key, "code-file:src/lib.rs");
    assert_eq!(delta.create_nodes.iter().filter(|n| n.node_type == "CodeFile").count(), 1);
    let mut ids: Vec<&String> = delta.create_nodes.iter().map(|n| &n.id).collect();
    ids.sort();
    ids.dedup();
    assert_eq!(ids.len(), delta.create_nodes.len());
    let mut edge_ids: Vec<&String> = delta.create_edges.iter().map(|e| &e.id).collect();
    edge_ids.sort();
    edge_ids.dedup();
    assert_eq!(edge_ids.len(), delta.create_edges.len());
    assert!(delta.create_edges.iter().any(|e| e.edge_type == "DEFINES_SYMBOL" && e.from == file.id));
    assert!(delta.update_nodes.is_empty() && delta.delete_edges.is_empty());
    let symbol = delta.create_nodes.iter().find(|n| n.node_type == "CodeSymbol").expect("symbol");
    let keys: Vec<&str> = symbol.attributes.iter().map(|(k, _)| k.as_str()).collect();
    let mut sorted = keys.clone();
    sorted.sort();
    assert_eq!(keys, sorted);
}
