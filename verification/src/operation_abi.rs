//! The operation ABI: the versioned definitions of every graph mutation the
//! runtime accepts.

use crate::git_graph::{FullFinding, no_ids};
use crate::keyed::{Keyed, has_key, views};
use crate::model::{
    Edge, EdgeV, Finding, FindingSeverity, Graph, GraphDelta, JsonV, JsonValue, Node, NodeV,
    OPERATION_REQUEST_SCHEMA_VERSION, OperationRequest, attr_lookup, delta_edges, delta_nodes, findings_full,
    insert_keyed, json_fields_view, json_view, lemma_remove_keys, push_related_finding, remove_keys,
};
use crate::stable_key::{stable_key_result, validate_stable_key};
use crate::text::{
    append, append_str, chars_of, eq_chars, eq_str, msg3, msg5, str_eq, string_chars, string_of, strings_view,
    trim, trim_exec,
};
use vstd::prelude::*;

verus! {

pub const OPERATION_DEFINITION_SCHEMA_VERSION: &'static str = "specgraph.operation-definition/v1";

#[derive(Debug, Clone, Copy, PartialEq, Eq)]
pub struct OperationDefinition {
    pub schema_version: &'static str,
    pub name: &'static str,
    pub category: &'static str,
    pub description: &'static str,
    pub required_input_fields: &'static [&'static str],
    pub preconditions: &'static [&'static str],
    pub allowed_create_node_types: &'static [&'static str],
    pub allowed_create_edge_types: &'static [&'static str],
    pub postconditions: &'static [&'static str],
}

/// The content of an operation definition.
pub struct OperationSpec {
    pub schema_version: Seq<char>,
    pub name: Seq<char>,
    pub category: Seq<char>,
    pub description: Seq<char>,
    pub required_input_fields: Seq<Seq<char>>,
    pub preconditions: Seq<Seq<char>>,
    pub allowed_create_node_types: Seq<Seq<char>>,
    pub allowed_create_edge_types: Seq<Seq<char>>,
    pub postconditions: Seq<Seq<char>>,
}

pub open spec fn names_view(s: Seq<&'static str>) -> Seq<Seq<char>> {
    s.map_values(|x: &'static str| x@)
}

pub open spec fn operation_view(d: OperationDefinition) -> OperationSpec {
    OperationSpec {
        schema_version: d.schema_version@,
        name: d.name@,
        category: d.category@,
        description: d.description@,
        required_input_fields: names_view(d.required_input_fields@),
        preconditions: names_view(d.preconditions@),
        allowed_create_node_types: names_view(d.allowed_create_node_types@),
        allowed_create_edge_types: names_view(d.allowed_create_edge_types@),
        postconditions: names_view(d.postconditions@),
    }
}

/// The checks every mutation runs before it is applied.
pub open spec fn generic_preconditions() -> Seq<Seq<char>> {
    seq!["created_node_ids_do_not_exist"@, "created_edge_ids_do_not_exist"@, "updated_node_ids_exist"@, "updated_edge_ids_exist"@, "deleted_node_ids_exist"@, "deleted_edge_ids_exist"@]
}

/// The checks every mutation runs after it is applied.
pub open spec fn generic_postconditions() -> Seq<Seq<char>> {
    seq!["created_and_updated_nodes_exist"@, "created_and_updated_edges_exist"@, "deleted_nodes_absent"@, "deleted_edges_absent"@]
}

fn generic_mutation_preconditions() -> (r: &'static [&'static str])
    ensures
        names_view(r@) == generic_preconditions(),
{
    let r: &'static [&'static str] = &["created_node_ids_do_not_exist", "created_edge_ids_do_not_exist", "updated_node_ids_exist", "updated_edge_ids_exist", "deleted_node_ids_exist", "deleted_edge_ids_exist"];
    assert(names_view(r@) =~= generic_preconditions());
    r
}

fn generic_mutation_postconditions() -> (r: &'static [&'static str])
    ensures
        names_view(r@) == generic_postconditions(),
{
    let r: &'static [&'static str] = &["created_and_updated_nodes_exist", "created_and_updated_edges_exist", "deleted_nodes_absent", "deleted_edges_absent"];
    assert(names_view(r@) =~= generic_postconditions());
    r
}

/// `Project.Init`.
pub open spec fn operation_0_spec() -> OperationSpec {
    OperationSpec {
        schema_version: OPERATION_DEFINITION_SCHEMA_VERSION@,
        name: "Project.Init"@,
        category: "project"@,
        description: "Initialize a SpecGraph store for a repository."@,
        required_input_fields: seq!["projectName"@],
        preconditions: generic_preconditions(),
        allowed_create_node_types: seq!["Project"@],
        allowed_create_edge_types: seq![],
        postconditions: generic_postconditions(),
    }
}

fn operation_0() -> (d: OperationDefinition)
    ensures
        operation_view(d) == operation_0_spec(),
{
    let required_input_fields: &'static [&'static str] = &["projectName"];
    let allowed_create_node_types: &'static [&'static str] = &["Project"];
    let allowed_create_edge_types: &'static [&'static str] = &[];
    let d = OperationDefinition {
        schema_version: OPERATION_DEFINITION_SCHEMA_VERSION,
        name: "Project.Init",
        category: "project",
        description: "Initialize a SpecGraph store for a repository.",
        required_input_fields,
        preconditions: generic_mutation_preconditions(),
        allowed_create_node_types,
        allowed_create_edge_types,
        postconditions: generic_mutation_postconditions(),
    };
    assert(names_view(d.required_input_fields@) =~= operation_0_spec().required_input_fields);
    assert(names_view(d.allowed_create_node_types@) =~= operation_0_spec().allowed_create_node_types);
    assert(names_view(d.allowed_create_edge_types@) =~= operation_0_spec().allowed_create_edge_types);
    d
}

/// `Project.ProfileUpsert`.
pub open spec fn operation_1_spec() -> OperationSpec {
    OperationSpec {
        schema_version: OPERATION_DEFINITION_SCHEMA_VERSION@,
        name: "Project.ProfileUpsert"@,
        category: "project"@,
        description: "Create or update graph-native project profile facts."@,
        required_input_fields: seq!["project"@, "profile"@],
        preconditions: generic_preconditions(),
        allowed_create_node_types: seq!["Project"@, "ProjectType"@, "Language"@, "ArchitectureStyle"@, "PackageManager"@, "TestRunner"@, "CIProvider"@],
        allowed_create_edge_types: seq!["HAS_PROJECT_TYPE"@, "USES_LANGUAGE"@, "HAS_ARCHITECTURE_STYLE"@, "USES_PACKAGE_MANAGER"@, "USES_TEST_RUNNER"@, "USES_CI_PROVIDER"@],
        postconditions: generic_postconditions(),
    }
}

fn operation_1() -> (d: OperationDefinition)
    ensures
        operation_view(d) == operation_1_spec(),
{
    let required_input_fields: &'static [&'static str] = &["project", "profile"];
    let allowed_create_node_types: &'static [&'static str] = &["Project", "ProjectType", "Language", "ArchitectureStyle", "PackageManager", "TestRunner", "CIProvider"];
    let allowed_create_edge_types: &'static [&'static str] = &["HAS_PROJECT_TYPE", "USES_LANGUAGE", "HAS_ARCHITECTURE_STYLE", "USES_PACKAGE_MANAGER", "USES_TEST_RUNNER", "USES_CI_PROVIDER"];
    let d = OperationDefinition {
        schema_version: OPERATION_DEFINITION_SCHEMA_VERSION,
        name: "Project.ProfileUpsert",
        category: "project",
        description: "Create or update graph-native project profile facts.",
        required_input_fields,
        preconditions: generic_mutation_preconditions(),
        allowed_create_node_types,
        allowed_create_edge_types,
        postconditions: generic_mutation_postconditions(),
    };
    assert(names_view(d.required_input_fields@) =~= operation_1_spec().required_input_fields);
    assert(names_view(d.allowed_create_node_types@) =~= operation_1_spec().allowed_create_node_types);
    assert(names_view(d.allowed_create_edge_types@) =~= operation_1_spec().allowed_create_edge_types);
    d
}

/// `ModuleGraph.Upsert`.
pub open spec fn operation_2_spec() -> OperationSpec {
    OperationSpec {
        schema_version: OPERATION_DEFINITION_SCHEMA_VERSION@,
        name: "ModuleGraph.Upsert"@,
        category: "module"@,
        description: "Create or update graph-native module, layer, package, capability, and interface facts."@,
        required_input_fields: seq!["module"@, "relationships"@],
        preconditions: generic_preconditions(),
        allowed_create_node_types: seq!["Module"@, "Layer"@, "Package"@, "Capability"@, "PublicInterface"@],
        allowed_create_edge_types: seq!["HAS_MODULE"@, "HAS_LAYER"@, "HAS_PACKAGE"@, "IN_LAYER"@, "PACKAGE_IN_MODULE"@, "HAS_CAPABILITY"@, "EXPOSES_INTERFACE"@],
        postconditions: generic_postconditions(),
    }
}

fn operation_2() -> (d: OperationDefinition)
    ensures
        operation_view(d) == operation_2_spec(),
{
    let required_input_fields: &'static [&'static str] = &["module", "relationships"];
    let allowed_create_node_types: &'static [&'static str] = &["Module", "Layer", "Package", "Capability", "PublicInterface"];
    let allowed_create_edge_types: &'static [&'static str] = &["HAS_MODULE", "HAS_LAYER", "HAS_PACKAGE", "IN_LAYER", "PACKAGE_IN_MODULE", "HAS_CAPABILITY", "EXPOSES_INTERFACE"];
    let d = OperationDefinition {
        schema_version: OPERATION_DEFINITION_SCHEMA_VERSION,
        name: "ModuleGraph.Upsert",
        category: "module",
        description: "Create or update graph-native module, layer, package, capability, and interface facts.",
        required_input_fields,
        preconditions: generic_mutation_preconditions(),
        allowed_create_node_types,
        allowed_create_edge_types,
        postconditions: generic_mutation_postconditions(),
    };
    assert(names_view(d.required_input_fields@) =~= operation_2_spec().required_input_fields);
    assert(names_view(d.allowed_create_node_types@) =~= operation_2_spec().allowed_create_node_types);
    assert(names_view(d.allowed_create_edge_types@) =~= operation_2_spec().allowed_create_edge_types);
    d
}

/// `ArchitectureGraph.Upsert`.
pub open spec fn operation_3_spec() -> OperationSpec {
    OperationSpec {
        schema_version: OPERATION_DEFINITION_SCHEMA_VERSION@,
        name: "ArchitectureGraph.Upsert"@,
        category: "architecture"@,
        description: "Create or update architecture layers, ports, adapters, dependency boundaries, and constraints."@,
        required_input_fields: seq!["architecture"@, "constraints"@],
        preconditions: generic_preconditions(),
        allowed_create_node_types: seq!["Layer"@, "Module"@, "Port"@, "Adapter"@, "DependencyBoundary"@, "ArchitectureConstraint"@, "PublicInterface"@],
        allowed_create_edge_types: seq!["HAS_PORT"@, "HAS_ADAPTER"@, "USES_PORT"@, "IMPLEMENTS"@, "CALLS"@, "FORBIDS_DEPENDENCY_ON"@, "HAS_DEPENDENCY_BOUNDARY"@, "HAS_ARCHITECTURE_CONSTRAINT"@, "IN_LAYER"@],
        postconditions: generic_postconditions(),
    }
}

fn operation_3() -> (d: OperationDefinition)
    ensures
        operation_view(d) == operation_3_spec(),
{
    let required_input_fields: &'static [&'static str] = &["architecture", "constraints"];
    let allowed_create_node_types: &'static [&'static str] = &["Layer", "Module", "Port", "Adapter", "DependencyBoundary", "ArchitectureConstraint", "PublicInterface"];
    let allowed_create_edge_types: &'static [&'static str] = &["HAS_PORT", "HAS_ADAPTER", "USES_PORT", "IMPLEMENTS", "CALLS", "FORBIDS_DEPENDENCY_ON", "HAS_DEPENDENCY_BOUNDARY", "HAS_ARCHITECTURE_CONSTRAINT", "IN_LAYER"];
    let d = OperationDefinition {
        schema_version: OPERATION_DEFINITION_SCHEMA_VERSION,
        name: "ArchitectureGraph.Upsert",
        category: "architecture",
        description: "Create or update architecture layers, ports, adapters, dependency boundaries, and constraints.",
        required_input_fields,
        preconditions: generic_mutation_preconditions(),
        allowed_create_node_types,
        allowed_create_edge_types,
        postconditions: generic_mutation_postconditions(),
    };
    assert(names_view(d.required_input_fields@) =~= operation_3_spec().required_input_fields);
    assert(names_view(d.allowed_create_node_types@) =~= operation_3_spec().allowed_create_node_types);
    assert(names_view(d.allowed_create_edge_types@) =~= operation_3_spec().allowed_create_edge_types);
    d
}

/// `DataGraph.Upsert`.
pub open spec fn operation_4_spec() -> OperationSpec {
    OperationSpec {
        schema_version: OPERATION_DEFINITION_SCHEMA_VERSION@,
        name: "DataGraph.Upsert"@,
        category: "data"@,
        description: "Create or update graph-native tables, columns, ownership, and data contracts."@,
        required_input_fields: seq!["dataGraph"@],
        preconditions: generic_preconditions(),
        allowed_create_node_types: seq!["Table"@, "Column"@, "DataContract"@, "ReadModel"@, "Query"@],
        allowed_create_edge_types: seq!["HAS_TABLE"@, "HAS_COLUMN"@, "OWNS_TABLE"@, "HAS_DATA_CONTRACT"@, "OWNS_DATA_CONTRACT"@, "COVERS_TABLE"@, "CONSUMES_DATA_CONTRACT"@, "READS_TABLE"@, "WRITES_TABLE"@],
        postconditions: generic_postconditions(),
    }
}

fn operation_4() -> (d: OperationDefinition)
    ensures
        operation_view(d) == operation_4_spec(),
{
    let required_input_fields: &'static [&'static str] = &["dataGraph"];
    let allowed_create_node_types: &'static [&'static str] = &["Table", "Column", "DataContract", "ReadModel", "Query"];
    let allowed_create_edge_types: &'static [&'static str] = &["HAS_TABLE", "HAS_COLUMN", "OWNS_TABLE", "HAS_DATA_CONTRACT", "OWNS_DATA_CONTRACT", "COVERS_TABLE", "CONSUMES_DATA_CONTRACT", "READS_TABLE", "WRITES_TABLE"];
    let d = OperationDefinition {
        schema_version: OPERATION_DEFINITION_SCHEMA_VERSION,
        name: "DataGraph.Upsert",
        category: "data",
        description: "Create or update graph-native tables, columns, ownership, and data contracts.",
        required_input_fields,
        preconditions: generic_mutation_preconditions(),
        allowed_create_node_types,
        allowed_create_edge_types,
        postconditions: generic_mutation_postconditions(),
    };
    assert(names_view(d.required_input_fields@) =~= operation_4_spec().required_input_fields);
    assert(names_view(d.allowed_create_node_types@) =~= operation_4_spec().allowed_create_node_types);
    assert(names_view(d.allowed_create_edge_types@) =~= operation_4_spec().allowed_create_edge_types);
    d
}

/// `Migration.Record`.
pub open spec fn operation_5_spec() -> OperationSpec {
    OperationSpec {
        schema_version: OPERATION_DEFINITION_SCHEMA_VERSION@,
        name: "Migration.Record"@,
        category: "data"@,
        description: "Record migration planning and execution evidence including owner, rollback, tests, approvals, and affected tables."@,
        required_input_fields: seq!["migration"@],
        preconditions: generic_preconditions(),
        allowed_create_node_types: seq!["Migration"@, "RollbackPlan"@, "MigrationTestEvidence"@],
        allowed_create_edge_types: seq!["OWNED_BY_MODULE"@, "AFFECTS_TABLE"@, "HAS_ROLLBACK_PLAN"@, "HAS_MIGRATION_TEST"@, "HAS_MIGRATION_APPROVAL"@],
        postconditions: generic_postconditions(),
    }
}

fn operation_5() -> (d: OperationDefinition)
    ensures
        operation_view(d) == operation_5_spec(),
{
    let required_input_fields: &'static [&'static str] = &["migration"];
    let allowed_create_node_types: &'static [&'static str] = &["Migration", "RollbackPlan", "MigrationTestEvidence"];
    let allowed_create_edge_types: &'static [&'static str] = &["OWNED_BY_MODULE", "AFFECTS_TABLE", "HAS_ROLLBACK_PLAN", "HAS_MIGRATION_TEST", "HAS_MIGRATION_APPROVAL"];
    let d = OperationDefinition {
        schema_version: OPERATION_DEFINITION_SCHEMA_VERSION,
        name: "Migration.Record",
        category: "data",
        description: "Record migration planning and execution evidence including owner, rollback, tests, approvals, and affected tables.",
        required_input_fields,
        preconditions: generic_mutation_preconditions(),
        allowed_create_node_types,
        allowed_create_edge_types,
        postconditions: generic_mutation_postconditions(),
    };
    assert(names_view(d.required_input_fields@) =~= operation_5_spec().required_input_fields);
    assert(names_view(d.allowed_create_node_types@) =~= operation_5_spec().allowed_create_node_types);
    assert(names_view(d.allowed_create_edge_types@) =~= operation_5_spec().allowed_create_edge_types);
    d
}

/// `Spec.Create`.
pub open spec fn operation_6_spec() -> OperationSpec {
    OperationSpec {
        schema_version: OPERATION_DEFINITION_SCHEMA_VERSION@,
        name: "Spec.Create"@,
        category: "spec"@,
        description: "Create a spec from CLI input."@,
        required_input_fields: seq!["spec"@],
        preconditions: generic_preconditions(),
        allowed_create_node_types: seq!["Spec"@, "Module"@, "Requirement"@, "AcceptanceCriterion"@, "Risk"@, "Mitigation"@, "Behavior"@, "UseCase"@, "Endpoint"@, "DomainEntity"@, "DomainEvent"@, "DataObject"@, "TestCase"@],
        allowed_create_edge_types: seq!["HAS_MODULE"@, "TOUCHES_MODULE"@, "HAS_REQUIREMENT"@, "HAS_ACCEPTANCE_CRITERION"@, "HAS_RISK"@, "HAS_MITIGATION"@, "HAS_BEHAVIOR"@, "HAS_USE_CASE"@, "HAS_ENDPOINT"@, "HAS_ENTITY"@, "HAS_EVENT"@, "HAS_DATA_OBJECT"@, "HAS_TEST_CASE"@],
        postconditions: generic_postconditions(),
    }
}

fn operation_6() -> (d: OperationDefinition)
    ensures
        operation_view(d) == operation_6_spec(),
{
    let required_input_fields: &'static [&'static str] = &["spec"];
    let allowed_create_node_types: &'static [&'static str] = &["Spec", "Module", "Requirement", "AcceptanceCriterion", "Risk", "Mitigation", "Behavior", "UseCase", "Endpoint", "DomainEntity", "DomainEvent", "DataObject", "TestCase"];
    let allowed_create_edge_types: &'static [&'static str] = &["HAS_MODULE", "TOUCHES_MODULE", "HAS_REQUIREMENT", "HAS_ACCEPTANCE_CRITERION", "HAS_RISK", "HAS_MITIGATION", "HAS_BEHAVIOR", "HAS_USE_CASE", "HAS_ENDPOINT", "HAS_ENTITY", "HAS_EVENT", "HAS_DATA_OBJECT", "HAS_TEST_CASE"];
    let d = OperationDefinition {
        schema_version: OPERATION_DEFINITION_SCHEMA_VERSION,
        name: "Spec.Create",
        category: "spec",
        description: "Create a spec from CLI input.",
        required_input_fields,
        preconditions: generic_mutation_preconditions(),
        allowed_create_node_types,
        allowed_create_edge_types,
        postconditions: generic_mutation_postconditions(),
    };
    assert(names_view(d.required_input_fields@) =~= operation_6_spec().required_input_fields);
    assert(names_view(d.allowed_create_node_types@) =~= operation_6_spec().allowed_create_node_types);
    assert(names_view(d.allowed_create_edge_types@) =~= operation_6_spec().allowed_create_edge_types);
    d
}

/// `Spec.Import`.
pub open spec fn operation_7_spec() -> OperationSpec {
    OperationSpec {
        schema_version: OPERATION_DEFINITION_SCHEMA_VERSION@,
        name: "Spec.Import"@,
        category: "spec"@,
        description: "Import a YAML spec projection."@,
        required_input_fields: seq!["path"@, "spec"@],
        preconditions: generic_preconditions(),
        allowed_create_node_types: seq!["Spec"@, "Module"@, "Requirement"@, "AcceptanceCriterion"@, "Risk"@, "Mitigation"@, "Behavior"@, "UseCase"@, "Endpoint"@, "DomainEntity"@, "DomainEvent"@, "DataObject"@, "TestCase"@],
        allowed_create_edge_types: seq!["HAS_MODULE"@, "TOUCHES_MODULE"@, "HAS_REQUIREMENT"@, "HAS_ACCEPTANCE_CRITERION"@, "HAS_RISK"@, "HAS_MITIGATION"@, "HAS_BEHAVIOR"@, "HAS_USE_CASE"@, "HAS_ENDPOINT"@, "HAS_ENTITY"@, "HAS_EVENT"@, "HAS_DATA_OBJECT"@, "HAS_TEST_CASE"@],
        postconditions: generic_postconditions(),
    }
}

fn operation_7() -> (d: OperationDefinition)
    ensures
        operation_view(d) == operation_7_spec(),
{
    let required_input_fields: &'static [&'static str] = &["path", "spec"];
    let allowed_create_node_types: &'static [&'static str] = &["Spec", "Module", "Requirement", "AcceptanceCriterion", "Risk", "Mitigation", "Behavior", "UseCase", "Endpoint", "DomainEntity", "DomainEvent", "DataObject", "TestCase"];
    let allowed_create_edge_types: &'static [&'static str] = &["HAS_MODULE", "TOUCHES_MODULE", "HAS_REQUIREMENT", "HAS_ACCEPTANCE_CRITERION", "HAS_RISK", "HAS_MITIGATION", "HAS_BEHAVIOR", "HAS_USE_CASE", "HAS_ENDPOINT", "HAS_ENTITY", "HAS_EVENT", "HAS_DATA_OBJECT", "HAS_TEST_CASE"];
    let d = OperationDefinition {
        schema_version: OPERATION_DEFINITION_SCHEMA_VERSION,
        name: "Spec.Import",
        category: "spec",
        description: "Import a YAML spec projection.",
        required_input_fields,
        preconditions: generic_mutation_preconditions(),
        allowed_create_node_types,
        allowed_create_edge_types,
        postconditions: generic_mutation_postconditions(),
    };
    assert(names_view(d.required_input_fields@) =~= operation_7_spec().required_input_fields);
    assert(names_view(d.allowed_create_node_types@) =~= operation_7_spec().allowed_create_node_types);
    assert(names_view(d.allowed_create_edge_types@) =~= operation_7_spec().allowed_create_edge_types);
    d
}

/// `Spec.Transition`.
pub open spec fn operation_8_spec() -> OperationSpec {
    OperationSpec {
        schema_version: OPERATION_DEFINITION_SCHEMA_VERSION@,
        name: "Spec.Transition"@,
        category: "spec"@,
        description: "Move a Spec through the evidence-gated full-system state machine."@,
        required_input_fields: seq!["spec"@, "state"@],
        preconditions: generic_preconditions(),
        allowed_create_node_types: seq!["Spec"@],
        allowed_create_edge_types: seq![],
        postconditions: generic_postconditions(),
    }
}

fn operation_8() -> (d: OperationDefinition)
    ensures
        operation_view(d) == operation_8_spec(),
{
    let required_input_fields: &'static [&'static str] = &["spec", "state"];
    let allowed_create_node_types: &'static [&'static str] = &["Spec"];
    let allowed_create_edge_types: &'static [&'static str] = &[];
    let d = OperationDefinition {
        schema_version: OPERATION_DEFINITION_SCHEMA_VERSION,
        name: "Spec.Transition",
        category: "spec",
        description: "Move a Spec through the evidence-gated full-system state machine.",
        required_input_fields,
        preconditions: generic_mutation_preconditions(),
        allowed_create_node_types,
        allowed_create_edge_types,
        postconditions: generic_mutation_postconditions(),
    };
    assert(names_view(d.required_input_fields@) =~= operation_8_spec().required_input_fields);
    assert(names_view(d.allowed_create_node_types@) =~= operation_8_spec().allowed_create_node_types);
    assert(names_view(d.allowed_create_edge_types@) =~= operation_8_spec().allowed_create_edge_types);
    d
}

/// `Spec.BindBranch`.
pub open spec fn operation_9_spec() -> OperationSpec {
    OperationSpec {
        schema_version: OPERATION_DEFINITION_SCHEMA_VERSION@,
        name: "Spec.BindBranch"@,
        category: "git"@,
        description: "Bind a spec to a Git branch and graph snapshot."@,
        required_input_fields: seq!["spec"@, "branch"@],
        preconditions: generic_preconditions(),
        allowed_create_node_types: seq!["GitBranch"@, "GraphSnapshot"@],
        allowed_create_edge_types: seq!["BOUND_TO_BRANCH"@, "STARTS_FROM_SNAPSHOT"@],
        postconditions: generic_postconditions(),
    }
}

fn operation_9() -> (d: OperationDefinition)
    ensures
        operation_view(d) == operation_9_spec(),
{
    let required_input_fields: &'static [&'static str] = &["spec", "branch"];
    let allowed_create_node_types: &'static [&'static str] = &["GitBranch", "GraphSnapshot"];
    let allowed_create_edge_types: &'static [&'static str] = &["BOUND_TO_BRANCH", "STARTS_FROM_SNAPSHOT"];
    let d = OperationDefinition {
        schema_version: OPERATION_DEFINITION_SCHEMA_VERSION,
        name: "Spec.BindBranch",
        category: "git",
        description: "Bind a spec to a Git branch and graph snapshot.",
        required_input_fields,
        preconditions: generic_mutation_preconditions(),
        allowed_create_node_types,
        allowed_create_edge_types,
        postconditions: generic_mutation_postconditions(),
    };
    assert(names_view(d.required_input_fields@) =~= operation_9_spec().required_input_fields);
    assert(names_view(d.allowed_create_node_types@) =~= operation_9_spec().allowed_create_node_types);
    assert(names_view(d.allowed_create_edge_types@) =~= operation_9_spec().allowed_create_edge_types);
    d
}

/// `ActionGraph.Generate`.
pub open spec fn operation_10_spec() -> OperationSpec {
    OperationSpec {
        schema_version: OPERATION_DEFINITION_SCHEMA_VERSION@,
        name: "ActionGraph.Generate"@,
        category: "action"@,
        description: "Generate the deterministic MVP ActionGraph template."@,
        required_input_fields: seq!["spec"@],
        preconditions: generic_preconditions(),
        allowed_create_node_types: seq!["ActionGraph"@, "ActionGroup"@, "ActionNode"@, "CommitPlan"@],
        allowed_create_edge_types: seq!["HAS_ACTION_GRAPH"@, "HAS_ACTION_GROUP"@, "HAS_ACTION"@, "HAS_COMMIT_PLAN"@],
        postconditions: generic_postconditions(),
    }
}

fn operation_10() -> (d: OperationDefinition)
    ensures
        operation_view(d) == operation_10_spec(),
{
    let required_input_fields: &'static [&'static str] = &["spec"];
    let allowed_create_node_types: &'static [&'static str] = &["ActionGraph", "ActionGroup", "ActionNode", "CommitPlan"];
    let allowed_create_edge_types: &'static [&'static str] = &["HAS_ACTION_GRAPH", "HAS_ACTION_GROUP", "HAS_ACTION", "HAS_COMMIT_PLAN"];
    let d = OperationDefinition {
        schema_version: OPERATION_DEFINITION_SCHEMA_VERSION,
        name: "ActionGraph.Generate",
        category: "action",
        description: "Generate the deterministic MVP ActionGraph template.",
        required_input_fields,
        preconditions: generic_mutation_preconditions(),
        allowed_create_node_types,
        allowed_create_edge_types,
        postconditions: generic_mutation_postconditions(),
    };
    assert(names_view(d.required_input_fields@) =~= operation_10_spec().required_input_fields);
    assert(names_view(d.allowed_create_node_types@) =~= operation_10_spec().allowed_create_node_types);
    assert(names_view(d.allowed_create_edge_types@) =~= operation_10_spec().allowed_create_edge_types);
    d
}

/// `Action.Start`.
pub open spec fn operation_11_spec() -> OperationSpec {
    OperationSpec {
        schema_version: OPERATION_DEFINITION_SCHEMA_VERSION@,
        name: "Action.Start"@,
        category: "action"@,
        description: "Move an ActionNode to InProgress and record an execution attempt."@,
        required_input_fields: seq!["action"@, "state"@],
        preconditions: generic_preconditions(),
        allowed_create_node_types: seq!["ActionNode"@, "ExecutionAttempt"@],
        allowed_create_edge_types: seq!["HAS_EXECUTION_ATTEMPT"@, "DEPENDS_ON"@, "REPLANNED_BY"@],
        postconditions: generic_postconditions(),
    }
}

fn operation_11() -> (d: OperationDefinition)
    ensures
        operation_view(d) == operation_11_spec(),
{
    let required_input_fields: &'static [&'static str] = &["action", "state"];
    let allowed_create_node_types: &'static [&'static str] = &["ActionNode", "ExecutionAttempt"];
    let allowed_create_edge_types: &'static [&'static str] = &["HAS_EXECUTION_ATTEMPT", "DEPENDS_ON", "REPLANNED_BY"];
    let d = OperationDefinition {
        schema_version: OPERATION_DEFINITION_SCHEMA_VERSION,
        name: "Action.Start",
        category: "action",
        description: "Move an ActionNode to InProgress and record an execution attempt.",
        required_input_fields,
        preconditions: generic_mutation_preconditions(),
        allowed_create_node_types,
        allowed_create_edge_types,
        postconditions: generic_mutation_postconditions(),
    };
    assert(names_view(d.required_input_fields@) =~= operation_11_spec().required_input_fields);
    assert(names_view(d.allowed_create_node_types@) =~= operation_11_spec().allowed_create_node_types);
    assert(names_view(d.allowed_create_edge_types@) =~= operation_11_spec().allowed_create_edge_types);
    d
}

/// `Action.Complete`.
pub open spec fn operation_12_spec() -> OperationSpec {
    OperationSpec {
        schema_version: OPERATION_DEFINITION_SCHEMA_VERSION@,
        name: "Action.Complete"@,
        category: "action"@,
        description: "Complete an ActionNode after required validation evidence exists."@,
        required_input_fields: seq!["action"@, "state"@],
        preconditions: generic_preconditions(),
        allowed_create_node_types: seq!["ActionNode"@, "ExecutionAttempt"@],
        allowed_create_edge_types: seq!["HAS_EXECUTION_ATTEMPT"@, "DEPENDS_ON"@, "REPLANNED_BY"@],
        postconditions: generic_postconditions(),
    }
}

fn operation_12() -> (d: OperationDefinition)
    ensures
        operation_view(d) == operation_12_spec(),
{
    let required_input_fields: &'static [&'static str] = &["action", "state"];
    let allowed_create_node_types: &'static [&'static str] = &["ActionNode", "ExecutionAttempt"];
    let allowed_create_edge_types: &'static [&'static str] = &["HAS_EXECUTION_ATTEMPT", "DEPENDS_ON", "REPLANNED_BY"];
    let d = OperationDefinition {
        schema_version: OPERATION_DEFINITION_SCHEMA_VERSION,
        name: "Action.Complete",
        category: "action",
        description: "Complete an ActionNode after required validation evidence exists.",
        required_input_fields,
        preconditions: generic_mutation_preconditions(),
        allowed_create_node_types,
        allowed_create_edge_types,
        postconditions: generic_mutation_postconditions(),
    };
    assert(names_view(d.required_input_fields@) =~= operation_12_spec().required_input_fields);
    assert(names_view(d.allowed_create_node_types@) =~= operation_12_spec().allowed_create_node_types);
    assert(names_view(d.allowed_create_edge_types@) =~= operation_12_spec().allowed_create_edge_types);
    d
}

/// `Action.Replan`.
pub open spec fn operation_13_spec() -> OperationSpec {
    OperationSpec {
        schema_version: OPERATION_DEFINITION_SCHEMA_VERSION@,
        name: "Action.Replan"@,
        category: "action"@,
        description: "Mark an ActionNode as replanned and record the replan attempt."@,
        required_input_fields: seq!["action"@, "state"@],
        preconditions: generic_preconditions(),
        allowed_create_node_types: seq!["ActionNode"@, "ExecutionAttempt"@],
        allowed_create_edge_types: seq!["HAS_EXECUTION_ATTEMPT"@, "DEPENDS_ON"@, "REPLANNED_BY"@],
        postconditions: generic_postconditions(),
    }
}

fn operation_13() -> (d: OperationDefinition)
    ensures
        operation_view(d) == operation_13_spec(),
{
    let required_input_fields: &'static [&'static str] = &["action", "state"];
    let allowed_create_node_types: &'static [&'static str] = &["ActionNode", "ExecutionAttempt"];
    let allowed_create_edge_types: &'static [&'static str] = &["HAS_EXECUTION_ATTEMPT", "DEPENDS_ON", "REPLANNED_BY"];
    let d = OperationDefinition {
        schema_version: OPERATION_DEFINITION_SCHEMA_VERSION,
        name: "Action.Replan",
        category: "action",
        description: "Mark an ActionNode as replanned and record the replan attempt.",
        required_input_fields,
        preconditions: generic_mutation_preconditions(),
        allowed_create_node_types,
        allowed_create_edge_types,
        postconditions: generic_mutation_postconditions(),
    };
    assert(names_view(d.required_input_fields@) =~= operation_13_spec().required_input_fields);
    assert(names_view(d.allowed_create_node_types@) =~= operation_13_spec().allowed_create_node_types);
    assert(names_view(d.allowed_create_edge_types@) =~= operation_13_spec().allowed_create_edge_types);
    d
}

/// `GitGraph.Record`.
pub open spec fn operation_14_spec() -> OperationSpec {
    OperationSpec {
        schema_version: OPERATION_DEFINITION_SCHEMA_VERSION@,
        name: "GitGraph.Record"@,
        category: "git"@,
        description: "Record branch, commit, tag, remote, merge, and PR placeholder facts."@,
        required_input_fields: seq!["gitGraph"@],
        preconditions: generic_preconditions(),
        allowed_create_node_types: seq!["GitRemote"@, "GitBranch"@, "GitCommit"@, "GitTag"@, "GitMerge"@, "PullRequest"@],
        allowed_create_edge_types: seq!["HAS_GIT_REMOTE"@, "HAS_GIT_BRANCH"@, "HAS_GIT_COMMIT"@, "HAS_GIT_TAG"@, "TRACKS_REMOTE"@, "POINTS_TO_COMMIT"@, "PARENT_COMMIT"@, "TAGS_COMMIT"@, "MERGES_BASE"@, "MERGES_HEAD"@, "PRODUCES_COMMIT"@, "HAS_PULL_REQUEST"@, "PR_FROM_BRANCH"@, "PR_TARGET_BRANCH"@],
        postconditions: generic_postconditions(),
    }
}

fn operation_14() -> (d: OperationDefinition)
    ensures
        operation_view(d) == operation_14_spec(),
{
    let required_input_fields: &'static [&'static str] = &["gitGraph"];
    let allowed_create_node_types: &'static [&'static str] = &["GitRemote", "GitBranch", "GitCommit", "GitTag", "GitMerge", "PullRequest"];
    let allowed_create_edge_types: &'static [&'static str] = &["HAS_GIT_REMOTE", "HAS_GIT_BRANCH", "HAS_GIT_COMMIT", "HAS_GIT_TAG", "TRACKS_REMOTE", "POINTS_TO_COMMIT", "PARENT_COMMIT", "TAGS_COMMIT", "MERGES_BASE", "MERGES_HEAD", "PRODUCES_COMMIT", "HAS_PULL_REQUEST", "PR_FROM_BRANCH", "PR_TARGET_BRANCH"];
    let d = OperationDefinition {
        schema_version: OPERATION_DEFINITION_SCHEMA_VERSION,
        name: "GitGraph.Record",
        category: "git",
        description: "Record branch, commit, tag, remote, merge, and PR placeholder facts.",
        required_input_fields,
        preconditions: generic_mutation_preconditions(),
        allowed_create_node_types,
        allowed_create_edge_types,
        postconditions: generic_mutation_postconditions(),
    };
    assert(names_view(d.required_input_fields@) =~= operation_14_spec().required_input_fields);
    assert(names_view(d.allowed_create_node_types@) =~= operation_14_spec().allowed_create_node_types);
    assert(names_view(d.allowed_create_edge_types@) =~= operation_14_spec().allowed_create_edge_types);
    d
}

/// `GitCommit.Record`.
pub open spec fn operation_15_spec() -> OperationSpec {
    OperationSpec {
        schema_version: OPERATION_DEFINITION_SCHEMA_VERSION@,
        name: "GitCommit.Record"@,
        category: "git"@,
        description: "Record a validated Git commit and changed files."@,
        required_input_fields: seq!["commit"@, "changedFiles"@],
        preconditions: generic_preconditions(),
        allowed_create_node_types: seq!["GitCommit"@, "CodeFile"@],
        allowed_create_edge_types: seq!["IMPLEMENTS_ACTION_GROUP"@, "FOLLOWS_COMMIT_PLAN"@, "CHANGES_FILE"@],
        postconditions: generic_postconditions(),
    }
}

fn operation_15() -> (d: OperationDefinition)
    ensures
        operation_view(d) == operation_15_spec(),
{
    let required_input_fields: &'static [&'static str] = &["commit", "changedFiles"];
    let allowed_create_node_types: &'static [&'static str] = &["GitCommit", "CodeFile"];
    let allowed_create_edge_types: &'static [&'static str] = &["IMPLEMENTS_ACTION_GROUP", "FOLLOWS_COMMIT_PLAN", "CHANGES_FILE"];
    let d = OperationDefinition {
        schema_version: OPERATION_DEFINITION_SCHEMA_VERSION,
        name: "GitCommit.Record",
        category: "git",
        description: "Record a validated Git commit and changed files.",
        required_input_fields,
        preconditions: generic_mutation_preconditions(),
        allowed_create_node_types,
        allowed_create_edge_types,
        postconditions: generic_mutation_postconditions(),
    };
    assert(names_view(d.required_input_fields@) =~= operation_15_spec().required_input_fields);
    assert(names_view(d.allowed_create_node_types@) =~= operation_15_spec().allowed_create_node_types);
    assert(names_view(d.allowed_create_edge_types@) =~= operation_15_spec().allowed_create_edge_types);
    d
}

/// `Identity.UpsertActor`.
pub open spec fn operation_16_spec() -> OperationSpec {
    OperationSpec {
        schema_version: OPERATION_DEFINITION_SCHEMA_VERSION@,
        name: "Identity.UpsertActor"@,
        category: "identity"@,
        description: "Create or update an actor identity graph fact."@,
        required_input_fields: seq!["actorId"@],
        preconditions: generic_preconditions(),
        allowed_create_node_types: seq!["Actor"@],
        allowed_create_edge_types: seq![],
        postconditions: generic_postconditions(),
    }
}

fn operation_16() -> (d: OperationDefinition)
    ensures
        operation_view(d) == operation_16_spec(),
{
    let required_input_fields: &'static [&'static str] = &["actorId"];
    let allowed_create_node_types: &'static [&'static str] = &["Actor"];
    let allowed_create_edge_types: &'static [&'static str] = &[];
    let d = OperationDefinition {
        schema_version: OPERATION_DEFINITION_SCHEMA_VERSION,
        name: "Identity.UpsertActor",
        category: "identity",
        description: "Create or update an actor identity graph fact.",
        required_input_fields,
        preconditions: generic_mutation_preconditions(),
        allowed_create_node_types,
        allowed_create_edge_types,
        postconditions: generic_mutation_postconditions(),
    };
    assert(names_view(d.required_input_fields@) =~= operation_16_spec().required_input_fields);
    assert(names_view(d.allowed_create_node_types@) =~= operation_16_spec().allowed_create_node_types);
    assert(names_view(d.allowed_create_edge_types@) =~= operation_16_spec().allowed_create_edge_types);
    d
}

/// `Identity.GrantRole`.
pub open spec fn operation_17_spec() -> OperationSpec {
    OperationSpec {
        schema_version: OPERATION_DEFINITION_SCHEMA_VERSION@,
        name: "Identity.GrantRole"@,
        category: "identity"@,
        description: "Grant a role and optional permissions to a registered actor."@,
        required_input_fields: seq!["actorId"@, "role"@],
        preconditions: generic_preconditions(),
        allowed_create_node_types: seq!["Role"@, "Permission"@],
        allowed_create_edge_types: seq!["HAS_ROLE"@, "GRANTS_PERMISSION"@],
        postconditions: generic_postconditions(),
    }
}

fn operation_17() -> (d: OperationDefinition)
    ensures
        operation_view(d) == operation_17_spec(),
{
    let required_input_fields: &'static [&'static str] = &["actorId", "role"];
    let allowed_create_node_types: &'static [&'static str] = &["Role", "Permission"];
    let allowed_create_edge_types: &'static [&'static str] = &["HAS_ROLE", "GRANTS_PERMISSION"];
    let d = OperationDefinition {
        schema_version: OPERATION_DEFINITION_SCHEMA_VERSION,
        name: "Identity.GrantRole",
        category: "identity",
        description: "Grant a role and optional permissions to a registered actor.",
        required_input_fields,
        preconditions: generic_mutation_preconditions(),
        allowed_create_node_types,
        allowed_create_edge_types,
        postconditions: generic_mutation_postconditions(),
    };
    assert(names_view(d.required_input_fields@) =~= operation_17_spec().required_input_fields);
    assert(names_view(d.allowed_create_node_types@) =~= operation_17_spec().allowed_create_node_types);
    assert(names_view(d.allowed_create_edge_types@) =~= operation_17_spec().allowed_create_edge_types);
    d
}

/// `Policy.RecordApproval`.
pub open spec fn operation_18_spec() -> OperationSpec {
    OperationSpec {
        schema_version: OPERATION_DEFINITION_SCHEMA_VERSION@,
        name: "Policy.RecordApproval"@,
        category: "policy"@,
        description: "Record graph-native approval evidence linked to an approver actor."@,
        required_input_fields: seq!["approval"@, "approvedBy"@],
        preconditions: generic_preconditions(),
        allowed_create_node_types: seq!["Approval"@],
        allowed_create_edge_types: seq!["HAS_APPROVAL"@],
        postconditions: generic_postconditions(),
    }
}

fn operation_18() -> (d: OperationDefinition)
    ensures
        operation_view(d) == operation_18_spec(),
{
    let required_input_fields: &'static [&'static str] = &["approval", "approvedBy"];
    let allowed_create_node_types: &'static [&'static str] = &["Approval"];
    let allowed_create_edge_types: &'static [&'static str] = &["HAS_APPROVAL"];
    let d = OperationDefinition {
        schema_version: OPERATION_DEFINITION_SCHEMA_VERSION,
        name: "Policy.RecordApproval",
        category: "policy",
        description: "Record graph-native approval evidence linked to an approver actor.",
        required_input_fields,
        preconditions: generic_mutation_preconditions(),
        allowed_create_node_types,
        allowed_create_edge_types,
        postconditions: generic_mutation_postconditions(),
    };
    assert(names_view(d.required_input_fields@) =~= operation_18_spec().required_input_fields);
    assert(names_view(d.allowed_create_node_types@) =~= operation_18_spec().allowed_create_node_types);
    assert(names_view(d.allowed_create_edge_types@) =~= operation_18_spec().allowed_create_edge_types);
    d
}

/// `Policy.CreateWaiver`.
pub open spec fn operation_19_spec() -> OperationSpec {
    OperationSpec {
        schema_version: OPERATION_DEFINITION_SCHEMA_VERSION@,
        name: "Policy.CreateWaiver"@,
        category: "policy"@,
        description: "Record graph-native waiver evidence linked to an approver actor."@,
        required_input_fields: seq!["policy"@, "reason"@, "approvedBy"@],
        preconditions: generic_preconditions(),
        allowed_create_node_types: seq!["Waiver"@],
        allowed_create_edge_types: seq!["HAS_WAIVER"@],
        postconditions: generic_postconditions(),
    }
}

fn operation_19() -> (d: OperationDefinition)
    ensures
        operation_view(d) == operation_19_spec(),
{
    let required_input_fields: &'static [&'static str] = &["policy", "reason", "approvedBy"];
    let allowed_create_node_types: &'static [&'static str] = &["Waiver"];
    let allowed_create_edge_types: &'static [&'static str] = &["HAS_WAIVER"];
    let d = OperationDefinition {
        schema_version: OPERATION_DEFINITION_SCHEMA_VERSION,
        name: "Policy.CreateWaiver",
        category: "policy",
        description: "Record graph-native waiver evidence linked to an approver actor.",
        required_input_fields,
        preconditions: generic_mutation_preconditions(),
        allowed_create_node_types,
        allowed_create_edge_types,
        postconditions: generic_mutation_postconditions(),
    };
    assert(names_view(d.required_input_fields@) =~= operation_19_spec().required_input_fields);
    assert(names_view(d.allowed_create_node_types@) =~= operation_19_spec().allowed_create_node_types);
    assert(names_view(d.allowed_create_edge_types@) =~= operation_19_spec().allowed_create_edge_types);
    d
}

/// `Policy.RecordDecision`.
pub open spec fn operation_20_spec() -> OperationSpec {
    OperationSpec {
        schema_version: OPERATION_DEFINITION_SCHEMA_VERSION@,
        name: "Policy.RecordDecision"@,
        category: "policy"@,
        description: "Persist policy decisions from a policy evaluation as graph facts."@,
        required_input_fields: seq!["policyRunId"@, "checkedOperation"@, "decisions"@],
        preconditions: generic_preconditions(),
        allowed_create_node_types: seq!["PolicyDecision"@],
        allowed_create_edge_types: seq!["HAS_POLICY_DECISION"@],
        postconditions: generic_postconditions(),
    }
}

fn operation_20() -> (d: OperationDefinition)
    ensures
        operation_view(d) == operation_20_spec(),
{
    let required_input_fields: &'static [&'static str] = &["policyRunId", "checkedOperation", "decisions"];
    let allowed_create_node_types: &'static [&'static str] = &["PolicyDecision"];
    let allowed_create_edge_types: &'static [&'static str] = &["HAS_POLICY_DECISION"];
    let d = OperationDefinition {
        schema_version: OPERATION_DEFINITION_SCHEMA_VERSION,
        name: "Policy.RecordDecision",
        category: "policy",
        description: "Persist policy decisions from a policy evaluation as graph facts.",
        required_input_fields,
        preconditions: generic_mutation_preconditions(),
        allowed_create_node_types,
        allowed_create_edge_types,
        postconditions: generic_mutation_postconditions(),
    };
    assert(names_view(d.required_input_fields@) =~= operation_20_spec().required_input_fields);
    assert(names_view(d.allowed_create_node_types@) =~= operation_20_spec().allowed_create_node_types);
    assert(names_view(d.allowed_create_edge_types@) =~= operation_20_spec().allowed_create_edge_types);
    d
}

/// `Code.Index`.
pub open spec fn operation_21_spec() -> OperationSpec {
    OperationSpec {
        schema_version: OPERATION_DEFINITION_SCHEMA_VERSION@,
        name: "Code.Index"@,
        category: "code"@,
        description: "Record changed files and observed source symbols as code facts."@,
        required_input_fields: seq!["changedFiles"@],
        preconditions: generic_preconditions(),
        allowed_create_node_types: seq!["CodeFile"@, "CodeSymbol"@, "CodeImport"@, "CodeRoute"@],
        allowed_create_edge_types: seq!["DEFINES_SYMBOL"@, "HAS_IMPORT"@, "IMPORTS_FILE"@, "DECLARES_ROUTE"@, "HANDLED_BY_SYMBOL"@, "OWNED_BY_MODULE"@, "IMPLEMENTS_BEHAVIOR"@, "ADDRESSES_RISK"@],
        postconditions: generic_postconditions(),
    }
}

fn operation_21() -> (d: OperationDefinition)
    ensures
        operation_view(d) == operation_21_spec(),
{
    let required_input_fields: &'static [&'static str] = &["changedFiles"];
    let allowed_create_node_types: &'static [&'static str] = &["CodeFile", "CodeSymbol", "CodeImport", "CodeRoute"];
    let allowed_create_edge_types: &'static [&'static str] = &["DEFINES_SYMBOL", "HAS_IMPORT", "IMPORTS_FILE", "DECLARES_ROUTE", "HANDLED_BY_SYMBOL", "OWNED_BY_MODULE", "IMPLEMENTS_BEHAVIOR", "ADDRESSES_RISK"];
    let d = OperationDefinition {
        schema_version: OPERATION_DEFINITION_SCHEMA_VERSION,
        name: "Code.Index",
        category: "code",
        description: "Record changed files and observed source symbols as code facts.",
        required_input_fields,
        preconditions: generic_mutation_preconditions(),
        allowed_create_node_types,
        allowed_create_edge_types,
        postconditions: generic_mutation_postconditions(),
    };
    assert(names_view(d.required_input_fields@) =~= operation_21_spec().required_input_fields);
    assert(names_view(d.allowed_create_node_types@) =~= operation_21_spec().allowed_create_node_types);
    assert(names_view(d.allowed_create_edge_types@) =~= operation_21_spec().allowed_create_edge_types);
    d
}

/// `CodeGraph.Upsert`.
pub open spec fn operation_22_spec() -> OperationSpec {
    OperationSpec {
        schema_version: OPERATION_DEFINITION_SCHEMA_VERSION@,
        name: "CodeGraph.Upsert"@,
        category: "code"@,
        description: "Record accepted CodeGraph semantic facts and traceability links."@,
        required_input_fields: seq!["codeGraph"@],
        preconditions: generic_preconditions(),
        allowed_create_node_types: seq!["CodeFile"@, "CodeSymbol"@, "CodeImport"@, "CodeRoute"@],
        allowed_create_edge_types: seq!["DEFINES_SYMBOL"@, "HAS_IMPORT"@, "IMPORTS_FILE"@, "DECLARES_ROUTE"@, "HANDLED_BY_SYMBOL"@, "OWNED_BY_MODULE"@, "IMPLEMENTS_BEHAVIOR"@, "ADDRESSES_RISK"@],
        postconditions: generic_postconditions(),
    }
}

fn operation_22() -> (d: OperationDefinition)
    ensures
        operation_view(d) == operation_22_spec(),
{
    let required_input_fields: &'static [&'static str] = &["codeGraph"];
    let allowed_create_node_types: &'static [&'static str] = &["CodeFile", "CodeSymbol", "CodeImport", "CodeRoute"];
    let allowed_create_edge_types: &'static [&'static str] = &["DEFINES_SYMBOL", "HAS_IMPORT", "IMPORTS_FILE", "DECLARES_ROUTE", "HANDLED_BY_SYMBOL", "OWNED_BY_MODULE", "IMPLEMENTS_BEHAVIOR", "ADDRESSES_RISK"];
    let d = OperationDefinition {
        schema_version: OPERATION_DEFINITION_SCHEMA_VERSION,
        name: "CodeGraph.Upsert",
        category: "code",
        description: "Record accepted CodeGraph semantic facts and traceability links.",
        required_input_fields,
        preconditions: generic_mutation_preconditions(),
        allowed_create_node_types,
        allowed_create_edge_types,
        postconditions: generic_mutation_postconditions(),
    };
    assert(names_view(d.required_input_fields@) =~= operation_22_spec().required_input_fields);
    assert(names_view(d.allowed_create_node_types@) =~= operation_22_spec().allowed_create_node_types);
    assert(names_view(d.allowed_create_edge_types@) =~= operation_22_spec().allowed_create_edge_types);
    d
}

/// `Trace.Import`.
pub open spec fn operation_23_spec() -> OperationSpec {
    OperationSpec {
        schema_version: OPERATION_DEFINITION_SCHEMA_VERSION@,
        name: "Trace.Import"@,
        category: "trace"@,
        description: "Import manifest, annotation, and inferred traceability links."@,
        required_input_fields: seq!["links"@],
        preconditions: generic_preconditions(),
        allowed_create_node_types: seq!["TestCase"@, "Regression"@, "PolicyRequirement"@],
        allowed_create_edge_types: seq!["VERIFIES"@, "IMPLEMENTS_USE_CASE"@, "ROUTES_TO_ENDPOINT"@, "TESTS_BEHAVIOR"@, "TESTS_RISK"@, "TESTS_REGRESSION"@, "TESTS_POLICY"@],
        postconditions: generic_postconditions(),
    }
}

fn operation_23() -> (d: OperationDefinition)
    ensures
        operation_view(d) == operation_23_spec(),
{
    let required_input_fields: &'static [&'static str] = &["links"];
    let allowed_create_node_types: &'static [&'static str] = &["TestCase", "Regression", "PolicyRequirement"];
    let allowed_create_edge_types: &'static [&'static str] = &["VERIFIES", "IMPLEMENTS_USE_CASE", "ROUTES_TO_ENDPOINT", "TESTS_BEHAVIOR", "TESTS_RISK", "TESTS_REGRESSION", "TESTS_POLICY"];
    let d = OperationDefinition {
        schema_version: OPERATION_DEFINITION_SCHEMA_VERSION,
        name: "Trace.Import",
        category: "trace",
        description: "Import manifest, annotation, and inferred traceability links.",
        required_input_fields,
        preconditions: generic_mutation_preconditions(),
        allowed_create_node_types,
        allowed_create_edge_types,
        postconditions: generic_mutation_postconditions(),
    };
    assert(names_view(d.required_input_fields@) =~= operation_23_spec().required_input_fields);
    assert(names_view(d.allowed_create_node_types@) =~= operation_23_spec().allowed_create_node_types);
    assert(names_view(d.allowed_create_edge_types@) =~= operation_23_spec().allowed_create_edge_types);
    d
}

/// `Trace.CrossDomain`.
pub open spec fn operation_24_spec() -> OperationSpec {
    OperationSpec {
        schema_version: OPERATION_DEFINITION_SCHEMA_VERSION@,
        name: "Trace.CrossDomain"@,
        category: "trace"@,
        description: "Record architecture, data, and security traceability to code, tests, and policies."@,
        required_input_fields: seq!["links"@],
        preconditions: generic_preconditions(),
        allowed_create_node_types: seq![],
        allowed_create_edge_types: seq!["TRACE_TO_CODE"@, "TRACE_TO_TEST"@, "TRACE_TO_POLICY"@],
        postconditions: generic_postconditions(),
    }
}

fn operation_24() -> (d: OperationDefinition)
    ensures
        operation_view(d) == operation_24_spec(),
{
    let required_input_fields: &'static [&'static str] = &["links"];
    let allowed_create_node_types: &'static [&'static str] = &[];
    let allowed_create_edge_types: &'static [&'static str] = &["TRACE_TO_CODE", "TRACE_TO_TEST", "TRACE_TO_POLICY"];
    let d = OperationDefinition {
        schema_version: OPERATION_DEFINITION_SCHEMA_VERSION,
        name: "Trace.CrossDomain",
        category: "trace",
        description: "Record architecture, data, and security traceability to code, tests, and policies.",
        required_input_fields,
        preconditions: generic_mutation_preconditions(),
        allowed_create_node_types,
        allowed_create_edge_types,
        postconditions: generic_mutation_postconditions(),
    };
    assert(names_view(d.required_input_fields@) =~= operation_24_spec().required_input_fields);
    assert(names_view(d.allowed_create_node_types@) =~= operation_24_spec().allowed_create_node_types);
    assert(names_view(d.allowed_create_edge_types@) =~= operation_24_spec().allowed_create_edge_types);
    d
}

/// `TestRun.Record`.
pub open spec fn operation_25_spec() -> OperationSpec {
    OperationSpec {
        schema_version: OPERATION_DEFINITION_SCHEMA_VERSION@,
        name: "TestRun.Record"@,
        category: "test"@,
        description: "Record normalized test-run and test-result evidence linked to a ValidationRun."@,
        required_input_fields: seq!["runId"@, "runner"@, "results"@],
        preconditions: generic_preconditions(),
        allowed_create_node_types: seq!["TestRun"@, "TestResult"@, "ValidationRun"@],
        allowed_create_edge_types: seq!["HAS_TEST_RUN"@, "HAS_TEST_RESULT"@, "TEST_RESULT_FOR"@],
        postconditions: generic_postconditions(),
    }
}

fn operation_25() -> (d: OperationDefinition)
    ensures
        operation_view(d) == operation_25_spec(),
{
    let required_input_fields: &'static [&'static str] = &["runId", "runner", "results"];
    let allowed_create_node_types: &'static [&'static str] = &["TestRun", "TestResult", "ValidationRun"];
    let allowed_create_edge_types: &'static [&'static str] = &["HAS_TEST_RUN", "HAS_TEST_RESULT", "TEST_RESULT_FOR"];
    let d = OperationDefinition {
        schema_version: OPERATION_DEFINITION_SCHEMA_VERSION,
        name: "TestRun.Record",
        category: "test",
        description: "Record normalized test-run and test-result evidence linked to a ValidationRun.",
        required_input_fields,
        preconditions: generic_mutation_preconditions(),
        allowed_create_node_types,
        allowed_create_edge_types,
        postconditions: generic_mutation_postconditions(),
    };
    assert(names_view(d.required_input_fields@) =~= operation_25_spec().required_input_fields);
    assert(names_view(d.allowed_create_node_types@) =~= operation_25_spec().allowed_create_node_types);
    assert(names_view(d.allowed_create_edge_types@) =~= operation_25_spec().allowed_create_edge_types);
    d
}

/// `Validation.Record`.
pub open spec fn operation_26_spec() -> OperationSpec {
    OperationSpec {
        schema_version: OPERATION_DEFINITION_SCHEMA_VERSION@,
        name: "Validation.Record"@,
        category: "validation"@,
        description: "Record validation run evidence and findings."@,
        required_input_fields: seq!["runId"@, "status"@, "checks"@],
        preconditions: generic_preconditions(),
        allowed_create_node_types: seq!["ValidationRun"@, "ValidatorExecution"@, "Finding"@],
        allowed_create_edge_types: seq!["VALIDATED_BY"@, "HAS_VALIDATOR_EXECUTION"@, "HAS_FINDING"@],
        postconditions: generic_postconditions(),
    }
}

fn operation_26() -> (d: OperationDefinition)
    ensures
        operation_view(d) == operation_26_spec(),
{
    let required_input_fields: &'static [&'static str] = &["runId", "status", "checks"];
    let allowed_create_node_types: &'static [&'static str] = &["ValidationRun", "ValidatorExecution", "Finding"];
    let allowed_create_edge_types: &'static [&'static str] = &["VALIDATED_BY", "HAS_VALIDATOR_EXECUTION", "HAS_FINDING"];
    let d = OperationDefinition {
        schema_version: OPERATION_DEFINITION_SCHEMA_VERSION,
        name: "Validation.Record",
        category: "validation",
        description: "Record validation run evidence and findings.",
        required_input_fields,
        preconditions: generic_mutation_preconditions(),
        allowed_create_node_types,
        allowed_create_edge_types,
        postconditions: generic_mutation_postconditions(),
    };
    assert(names_view(d.required_input_fields@) =~= operation_26_spec().required_input_fields);
    assert(names_view(d.allowed_create_node_types@) =~= operation_26_spec().allowed_create_node_types);
    assert(names_view(d.allowed_create_edge_types@) =~= operation_26_spec().allowed_create_edge_types);
    d
}

/// `ExistingRepo.Adopt`.
pub open spec fn operation_27_spec() -> OperationSpec {
    OperationSpec {
        schema_version: OPERATION_DEFINITION_SCHEMA_VERSION@,
        name: "ExistingRepo.Adopt"@,
        category: "adoption"@,
        description: "Record observed CodeFile baseline facts for an existing repo."@,
        required_input_fields: seq!["mode"@],
        preconditions: generic_preconditions(),
        allowed_create_node_types: seq!["CodeFile"@],
        allowed_create_edge_types: seq![],
        postconditions: generic_postconditions(),
    }
}

fn operation_27() -> (d: OperationDefinition)
    ensures
        operation_view(d) == operation_27_spec(),
{
    let required_input_fields: &'static [&'static str] = &["mode"];
    let allowed_create_node_types: &'static [&'static str] = &["CodeFile"];
    let allowed_create_edge_types: &'static [&'static str] = &[];
    let d = OperationDefinition {
        schema_version: OPERATION_DEFINITION_SCHEMA_VERSION,
        name: "ExistingRepo.Adopt",
        category: "adoption",
        description: "Record observed CodeFile baseline facts for an existing repo.",
        required_input_fields,
        preconditions: generic_mutation_preconditions(),
        allowed_create_node_types,
        allowed_create_edge_types,
        postconditions: generic_mutation_postconditions(),
    };
    assert(names_view(d.required_input_fields@) =~= operation_27_spec().required_input_fields);
    assert(names_view(d.allowed_create_node_types@) =~= operation_27_spec().allowed_create_node_types);
    assert(names_view(d.allowed_create_edge_types@) =~= operation_27_spec().allowed_create_edge_types);
    d
}

/// `Proposal.Create`.
pub open spec fn operation_28_spec() -> OperationSpec {
    OperationSpec {
        schema_version: OPERATION_DEFINITION_SCHEMA_VERSION@,
        name: "Proposal.Create"@,
        category: "proposal"@,
        description: "Store an untrusted proposal node."@,
        required_input_fields: seq!["proposal"@],
        preconditions: generic_preconditions(),
        allowed_create_node_types: seq!["Proposal"@],
        allowed_create_edge_types: seq![],
        postconditions: generic_postconditions(),
    }
}

fn operation_28() -> (d: OperationDefinition)
    ensures
        operation_view(d) == operation_28_spec(),
{
    let required_input_fields: &'static [&'static str] = &["proposal"];
    let allowed_create_node_types: &'static [&'static str] = &["Proposal"];
    let allowed_create_edge_types: &'static [&'static str] = &[];
    let d = OperationDefinition {
        schema_version: OPERATION_DEFINITION_SCHEMA_VERSION,
        name: "Proposal.Create",
        category: "proposal",
        description: "Store an untrusted proposal node.",
        required_input_fields,
        preconditions: generic_mutation_preconditions(),
        allowed_create_node_types,
        allowed_create_edge_types,
        postconditions: generic_mutation_postconditions(),
    };
    assert(names_view(d.required_input_fields@) =~= operation_28_spec().required_input_fields);
    assert(names_view(d.allowed_create_node_types@) =~= operation_28_spec().allowed_create_node_types);
    assert(names_view(d.allowed_create_edge_types@) =~= operation_28_spec().allowed_create_edge_types);
    d
}

/// `Proposal.Transition`.
pub open spec fn operation_29_spec() -> OperationSpec {
    OperationSpec {
        schema_version: OPERATION_DEFINITION_SCHEMA_VERSION@,
        name: "Proposal.Transition"@,
        category: "proposal"@,
        description: "Move a proposal through the trust-state lifecycle."@,
        required_input_fields: seq!["proposal"@, "state"@],
        preconditions: generic_preconditions(),
        allowed_create_node_types: seq!["Proposal"@],
        allowed_create_edge_types: seq![],
        postconditions: generic_postconditions(),
    }
}

fn operation_29() -> (d: OperationDefinition)
    ensures
        operation_view(d) == operation_29_spec(),
{
    let required_input_fields: &'static [&'static str] = &["proposal", "state"];
    let allowed_create_node_types: &'static [&'static str] = &["Proposal"];
    let allowed_create_edge_types: &'static [&'static str] = &[];
    let d = OperationDefinition {
        schema_version: OPERATION_DEFINITION_SCHEMA_VERSION,
        name: "Proposal.Transition",
        category: "proposal",
        description: "Move a proposal through the trust-state lifecycle.",
        required_input_fields,
        preconditions: generic_mutation_preconditions(),
        allowed_create_node_types,
        allowed_create_edge_types,
        postconditions: generic_mutation_postconditions(),
    };
    assert(names_view(d.required_input_fields@) =~= operation_29_spec().required_input_fields);
    assert(names_view(d.allowed_create_node_types@) =~= operation_29_spec().allowed_create_node_types);
    assert(names_view(d.allowed_create_edge_types@) =~= operation_29_spec().allowed_create_edge_types);
    d
}

/// `OntologyPack.Install`.
pub open spec fn operation_30_spec() -> OperationSpec {
    OperationSpec {
        schema_version: OPERATION_DEFINITION_SCHEMA_VERSION@,
        name: "OntologyPack.Install"@,
        category: "ontology"@,
        description: "Install and lock an ontology pack manifest."@,
        required_input_fields: seq!["name"@, "version"@, "path"@],
        preconditions: generic_preconditions(),
        allowed_create_node_types: seq!["OntologyPack"@, "OntologyVersion"@, "OntologyMigration"@],
        allowed_create_edge_types: seq![],
        postconditions: generic_postconditions(),
    }
}

fn operation_30() -> (d: OperationDefinition)
    ensures
        operation_view(d) == operation_30_spec(),
{
    let required_input_fields: &'static [&'static str] = &["name", "version", "path"];
    let allowed_create_node_types: &'static [&'static str] = &["OntologyPack", "OntologyVersion", "OntologyMigration"];
    let allowed_create_edge_types: &'static [&'static str] = &[];
    let d = OperationDefinition {
        schema_version: OPERATION_DEFINITION_SCHEMA_VERSION,
        name: "OntologyPack.Install",
        category: "ontology",
        description: "Install and lock an ontology pack manifest.",
        required_input_fields,
        preconditions: generic_mutation_preconditions(),
        allowed_create_node_types,
        allowed_create_edge_types,
        postconditions: generic_mutation_postconditions(),
    };
    assert(names_view(d.required_input_fields@) =~= operation_30_spec().required_input_fields);
    assert(names_view(d.allowed_create_node_types@) =~= operation_30_spec().allowed_create_node_types);
    assert(names_view(d.allowed_create_edge_types@) =~= operation_30_spec().allowed_create_edge_types);
    d
}

/// The built-in operation definitions, in registry order.
pub open spec fn operation_table() -> Seq<OperationSpec> {
    seq![
        operation_0_spec(),
        operation_1_spec(),
        operation_2_spec(),
        operation_3_spec(),
        operation_4_spec(),
        operation_5_spec(),
        operation_6_spec(),
        operation_7_spec(),
        operation_8_spec(),
        operation_9_spec(),
        operation_10_spec(),
        operation_11_spec(),
        operation_12_spec(),
        operation_13_spec(),
        operation_14_spec(),
        operation_15_spec(),
        operation_16_spec(),
        operation_17_spec(),
        operation_18_spec(),
        operation_19_spec(),
        operation_20_spec(),
        operation_21_spec(),
        operation_22_spec(),
        operation_23_spec(),
        operation_24_spec(),
        operation_25_spec(),
        operation_26_spec(),
        operation_27_spec(),
        operation_28_spec(),
        operation_29_spec(),
        operation_30_spec()
    ]
}

pub fn built_in_operations() -> (r: Vec<OperationDefinition>)
    ensures
        r@.map_values(|d: OperationDefinition| operation_view(d)) == operation_table(),
{
    let mut r: Vec<OperationDefinition> = Vec::new();
    r.push(operation_0());
    r.push(operation_1());
    r.push(operation_2());
    r.push(operation_3());
    r.push(operation_4());
    r.push(operation_5());
    r.push(operation_6());
    r.push(operation_7());
    r.push(operation_8());
    r.push(operation_9());
    r.push(operation_10());
    r.push(operation_11());
    r.push(operation_12());
    r.push(operation_13());
    r.push(operation_14());
    r.push(operation_15());
    r.push(operation_16());
    r.push(operation_17());
    r.push(operation_18());
    r.push(operation_19());
    r.push(operation_20());
    r.push(operation_21());
    r.push(operation_22());
    r.push(operation_23());
    r.push(operation_24());
    r.push(operation_25());
    r.push(operation_26());
    r.push(operation_27());
    r.push(operation_28());
    r.push(operation_29());
    r.push(operation_30());
    assert(r@.map_values(|d: OperationDefinition| operation_view(d)) =~= operation_table());
    r
}

/// Every built-in definition carries the current definition schema version.
pub proof fn operation_definitions_are_versioned()
    ensures
        forall|i: int|
            0 <= i < operation_table().len() ==> (#[trigger] operation_table()[i]).schema_version
                == OPERATION_DEFINITION_SCHEMA_VERSION@,
{
}

/// The first operation of `table` named `name`.
pub open spec fn first_op(table: Seq<OperationSpec>, name: Seq<char>) -> Option<OperationSpec>
    decreases table.len(),
{
    if table.len() == 0 {
        None
    } else if table[0].name == name {
        Some(table[0])
    } else {
        first_op(table.drop_first(), name)
    }
}

/// The built-in operation named `name`, if any.
pub fn find_operation(name: &str) -> (r: Option<OperationDefinition>)
    ensures
        r is Some <==> exists|i: int| 0 <= i < operation_table().len() && (#[trigger] operation_table()[i]).name == name@,
        r matches Some(d) ==> d.name@ == name@ && operation_table().contains(operation_view(d)),
        r matches Some(d) ==> first_op(operation_table(), name@) == Some(operation_view(d)),
        r is None ==> first_op(operation_table(), name@) is None,
{
    let all = built_in_operations();
    let ghost table = operation_table();
    let mut i: usize = 0;
    assert(table.skip(0) =~= table);
    while i < all.len()
        invariant
            i <= all@.len(),
            all@.map_values(|d: OperationDefinition| operation_view(d)) == table,
            table == operation_table(),
            forall|k: int| 0 <= k < i ==> (#[trigger] table[k]).name != name@,
            first_op(table, name@) == first_op(table.skip(i as int), name@),
        decreases all@.len() - i,
    {
        assert(table[i as int] == operation_view(all@[i as int]));
        assert(table.skip(i as int)[0] == table[i as int]);
        assert(table.skip(i as int).drop_first() =~= table.skip(i + 1));
        if str_eq(all[i].name, name) {
            return Some(all[i]);
        }
        i = i + 1;
    }
    None
}

// ------------------------------------------------------------ requests

pub open spec fn err(code: Seq<char>, message: Seq<char>) -> Seq<FullFinding> {
    seq![(code, FindingSeverity::Error, message, Seq::<Seq<char>>::empty(), Seq::<Seq<char>>::empty())]
}

pub open spec fn schema_findings(op: Seq<char>, version: Seq<char>) -> Seq<FullFinding> {
    if version != OPERATION_REQUEST_SCHEMA_VERSION@ {
        err(
            "operation.schema_version_unsupported"@,
            "Operation `"@ + op + "` request schemaVersion `"@ + version + "` is unsupported; expected `"@
                + OPERATION_REQUEST_SCHEMA_VERSION@
                + "`. Remediation: regenerate the request using the current Operation ABI schema."@,
        )
    } else {
        Seq::empty()
    }
}

/// What an actor is reported for: being blank, or not being a trimmed text
/// that makes a valid `actor:` stable key.
pub open spec fn actor_findings(op: Seq<char>, actor: Seq<char>) -> Seq<FullFinding> {
    let t = trim(actor);
    if t.len() == 0 {
        err(
            "operation.actor_required"@,
            "Operation `"@ + op + "` requires a non-empty actor. Remediation: pass a stable actor id such as `local:user`."@,
        )
    } else if actor != t || stable_key_result("actor:"@ + t) is Err {
        err(
            "operation.actor_invalid"@,
            "Operation `"@ + op + "` actor `"@ + actor
                + "` is invalid. Remediation: use a stable actor id without whitespace or control characters."@,
        )
    } else {
        Seq::empty()
    }
}

/// An input object holds `field` with a value other than null.
pub open spec fn input_has(input: JsonV, field: Seq<char>) -> bool {
    match input {
        JsonV::Object(fs) => match attr_lookup(fs, field) {
            Some(v) => !(v is Null),
            None => false,
        },
        _ => false,
    }
}

pub open spec fn input_findings(name: Seq<char>, fields: Seq<Seq<char>>, input: JsonV) -> Seq<FullFinding>
    decreases fields.len(),
{
    if fields.len() == 0 {
        Seq::empty()
    } else {
        input_findings(name, fields.drop_last(), input) + if input_has(input, fields.last()) {
            Seq::<FullFinding>::empty()
        } else {
            err(
                "operation.input_missing"@,
                "Operation `"@ + name + "` is missing required input field `"@ + fields.last() + "`"@,
            )
        }
    }
}

pub open spec fn type_findings(code: Seq<char>, what: Seq<char>, name: Seq<char>, allowed: Seq<Seq<char>>, types: Seq<Seq<char>>) -> Seq<
    FullFinding,
>
    decreases types.len(),
{
    if types.len() == 0 {
        Seq::empty()
    } else {
        type_findings(code, what, name, allowed, types.drop_last()) + if allowed.contains(types.last()) {
            Seq::<FullFinding>::empty()
        } else {
            err(code, "Operation `"@ + name + "` cannot create/update "@ + what + " type `"@ + types.last() + "`"@)
        }
    }
}

pub open spec fn node_types_of(ns: Seq<NodeV>) -> Seq<Seq<char>> {
    ns.map_values(|n: NodeV| n.node_type)
}

pub open spec fn edge_types_of(es: Seq<EdgeV>) -> Seq<Seq<char>> {
    es.map_values(|e: EdgeV| e.edge_type)
}

/// What a request and its delta are reported for: an unknown operation
/// alone; else the schema version, the actor, each missing input field, and
/// each created or updated node, then edge, of a type the operation may not
/// write.
pub open spec fn request_findings(
    op: Seq<char>,
    version: Seq<char>,
    actor: Seq<char>,
    input: JsonV,
    delta: GraphDelta,
) -> Seq<FullFinding> {
    match first_op(operation_table(), op) {
        None => err("operation.unknown"@, "Unknown operation `"@ + op + "`"@),
        Some(d) => schema_findings(op, version) + actor_findings(op, actor) + input_findings(
            d.name,
            d.required_input_fields,
            input,
        ) + type_findings(
            "operation.node_type_not_allowed"@,
            "node"@,
            d.name,
            d.allowed_create_node_types,
            node_types_of(views(delta.create_nodes@) + views(delta.update_nodes@)),
        ) + type_findings(
            "operation.edge_type_not_allowed"@,
            "edge"@,
            d.name,
            d.allowed_create_edge_types,
            edge_types_of(views(delta.create_edges@) + views(delta.update_edges@)),
        ),
    }
}

fn static_has(v: &'static [&'static str], x: &str) -> (r: bool)
    ensures
        r == names_view(v@).contains(x@),
{
    let xc = chars_of(x);
    let mut i: usize = 0;
    while i < v.len()
        invariant
            i <= v@.len(),
            xc@ == x@,
            forall|j: int| 0 <= j < i ==> names_view(v@)[j] != x@,
        decreases v@.len() - i,
    {
        if eq_chars(&chars_of(v[i]), &xc) {
            assert(names_view(v@)[i as int] == x@);
            return true;
        }
        i = i + 1;
    }
    false
}

fn input_present(input: &JsonValue, field: &str) -> (r: bool)
    ensures
        r == input_has(json_view(*input), field@),
{
    match input {
        JsonValue::Object(fs) => {
            let ghost fv = json_fields_view(fs@);
            assert(json_view(*input) == JsonV::Object(fv));
            proof {
                crate::model::lemma_json_fields_view(fs@);
            }
            let k = chars_of(field);
            let mut i: usize = 0;
            assert(fv.skip(0) =~= fv);
            while i < fs.len()
                invariant
                    i <= fs@.len(),
                    fv == json_fields_view(fs@),
                    json_view(*input) == JsonV::Object(fv),
                    fv.len() == fs@.len(),
                    k@ == field@,
                    forall|j: int| 0 <= j < fs@.len() ==> #[trigger] fv[j] == (fs@[j].0@, json_view(fs@[j].1)),
                    attr_lookup(fv, field@) == attr_lookup(fv.skip(i as int), field@),
                decreases fs@.len() - i,
            {
                assert(fv.skip(i as int)[0] == fv[i as int]);
                assert(fv.skip(i as int).drop_first() =~= fv.skip(i + 1));
                if eq_chars(&string_chars(&fs[i].0), &k) {
                    assert(attr_lookup(fv, field@) == Some(json_view(fs@[i as int].1)));
                    let null = match &fs[i].1 {
                        JsonValue::Null => true,
                        JsonValue::Bool(_) => false,
                        JsonValue::Int(_) => false,
                        JsonValue::Number(_) => false,
                        JsonValue::Text(_) => false,
                        JsonValue::Array(_) => false,
                        JsonValue::Object(_) => false,
                    };
                    assert(null == (json_view(fs@[i as int].1) is Null));
                    return !null;
                }
                i = i + 1;
            }
            false
        },
        _ => false,
    }
}

fn push_err(findings: &mut Vec<Finding>, code: &str, message: String)
    ensures
        findings_full(final(findings)@) == findings_full(old(findings)@) + err(code@, message@),
{
    let ghost f0 = findings_full(findings@);
    push_related_finding(findings, code, message, no_ids(), no_ids());
    assert(findings_full(findings@) =~= f0 + err(code@, message@));
}

fn push_actor_findings(findings: &mut Vec<Finding>, op: &String, actor: &String)
    ensures
        findings_full(final(findings)@) == findings_full(old(findings)@) + actor_findings(op@, actor@),
{
    let ghost f0 = findings_full(findings@);
    let opc = string_chars(op);
    let ac = string_chars(actor);
    let t = trim_exec(&ac);
    if t.len() == 0 {
        push_err(
            findings,
            "operation.actor_required",
            msg3(
                "Operation `",
                &opc,
                "` requires a non-empty actor. Remediation: pass a stable actor id such as `local:user`.",
            ),
        );
        return;
    }
    let mut key = chars_of("actor:");
    append(&mut key, &t);
    let key_s = string_of(&key);
    let bad_key = validate_stable_key(key_s.as_str()).is_err();
    if !eq_chars(&ac, &t) || bad_key {
        push_err(
            findings,
            "operation.actor_invalid",
            msg5(
                "Operation `",
                &opc,
                "` actor `",
                &ac,
                "` is invalid. Remediation: use a stable actor id without whitespace or control characters.",
            ),
        );
    } else {
        assert(findings_full(findings@) =~= f0 + Seq::<FullFinding>::empty());
    }
}

fn push_input_findings(findings: &mut Vec<Finding>, d: OperationDefinition, input: &JsonValue)
    ensures
        findings_full(final(findings)@) == findings_full(old(findings)@) + input_findings(
            d.name@,
            names_view(d.required_input_fields@),
            json_view(*input),
        ),
{
    let ghost fs = names_view(d.required_input_fields@);
    let ghost f0 = findings_full(findings@);
    let namec = chars_of(d.name);
    let mut i: usize = 0;
    assert(f0 + input_findings(d.name@, fs.take(0), json_view(*input)) =~= f0);
    while i < d.required_input_fields.len()
        invariant
            i <= fs.len(),
            fs == names_view(d.required_input_fields@),
            namec@ == d.name@,
            findings_full(findings@) == f0 + input_findings(d.name@, fs.take(i as int), json_view(*input)),
        decreases fs.len() - i,
    {
        let field = d.required_input_fields[i];
        assert(fs[i as int] == field@);
        assert(fs.take(i + 1).drop_last() =~= fs.take(i as int));
        let ghost f1 = findings_full(findings@);
        if !input_present(input, field) {
            push_err(
                findings,
                "operation.input_missing",
                msg5("Operation `", &namec, "` is missing required input field `", &chars_of(field), "`"),
            );
        } else {
            assert(findings_full(findings@) =~= f1 + Seq::<FullFinding>::empty());
        }
        i = i + 1;
    }
    assert(fs.take(fs.len() as int) =~= fs);
}

fn push_type_findings(
    findings: &mut Vec<Finding>,
    code: &str,
    what: &str,
    name: &'static str,
    allowed: &'static [&'static str],
    types: &Vec<String>,
)
    ensures
        findings_full(final(findings)@) == findings_full(old(findings)@) + type_findings(
            code@,
            what@,
            name@,
            names_view(allowed@),
            strings_view(types@),
        ),
{
    let ghost ts = strings_view(types@);
    let ghost f0 = findings_full(findings@);
    let namec = chars_of(name);
    let mut i: usize = 0;
    assert(f0 + type_findings(code@, what@, name@, names_view(allowed@), ts.take(0)) =~= f0);
    while i < types.len()
        invariant
            i <= ts.len(),
            ts == strings_view(types@),
            namec@ == name@,
            findings_full(findings@) == f0 + type_findings(code@, what@, name@, names_view(allowed@), ts.take(i as int)),
        decreases ts.len() - i,
    {
        assert(ts[i as int] == types@[i as int]@);
        assert(ts.take(i + 1).drop_last() =~= ts.take(i as int));
        let ghost f1 = findings_full(findings@);
        if !static_has(allowed, types[i].as_str()) {
            let mut m = chars_of("Operation `");
            append(&mut m, &namec);
            append_str(&mut m, "` cannot create/update ");
            append(&mut m, &chars_of(what));
            append_str(&mut m, " type `");
            append(&mut m, &string_chars(&types[i]));
            append_str(&mut m, "`");
            push_err(findings, code, string_of(&m));
        } else {
            assert(findings_full(findings@) =~= f1 + Seq::<FullFinding>::empty());
        }
        i = i + 1;
    }
    assert(ts.take(ts.len() as int) =~= ts);
}

pub(crate) fn node_types_in(a: &Vec<Node>, b: &Vec<Node>) -> (r: Vec<String>)
    ensures
        strings_view(r@) == node_types_of(views(a@) + views(b@)),
{
    let mut r: Vec<String> = Vec::new();
    let ghost all = views(a@) + views(b@);
    let mut i: usize = 0;
    while i < a.len()
        invariant
            i <= a@.len(),
            all == views(a@) + views(b@),
            strings_view(r@) == node_types_of(all.take(i as int)),
        decreases a@.len() - i,
    {
        let ghost r0 = strings_view(r@);
        r.push(a[i].node_type.clone());
        assert(all[i as int] == a@[i as int]@);
        assert(node_types_of(all.take(i + 1)) =~= node_types_of(all.take(i as int)).push(all[i as int].node_type));
        assert(strings_view(r@) =~= r0.push(a@[i as int].node_type@));
        i = i + 1;
    }
    let mut j: usize = 0;
    while j < b.len()
        invariant
            j <= b@.len(),
            all == views(a@) + views(b@),
            strings_view(r@) == node_types_of(all.take(a@.len() + j)),
        decreases b@.len() - j,
    {
        let ghost r0 = strings_view(r@);
        r.push(b[j].node_type.clone());
        assert(all[a@.len() + j] == b@[j as int]@);
        assert(node_types_of(all.take(a@.len() + j + 1)) =~= node_types_of(all.take(a@.len() + j)).push(
            all[a@.len() + j].node_type,
        ));
        assert(strings_view(r@) =~= r0.push(b@[j as int].node_type@));
        j = j + 1;
    }
    assert(all.take((a@.len() + b@.len()) as int) =~= all);
    r
}

pub(crate) fn edge_types_in(a: &Vec<Edge>, b: &Vec<Edge>) -> (r: Vec<String>)
    ensures
        strings_view(r@) == edge_types_of(views(a@) + views(b@)),
{
    let mut r: Vec<String> = Vec::new();
    let ghost all = views(a@) + views(b@);
    let mut i: usize = 0;
    while i < a.len()
        invariant
            i <= a@.len(),
            all == views(a@) + views(b@),
            strings_view(r@) == edge_types_of(all.take(i as int)),
        decreases a@.len() - i,
    {
        let ghost r0 = strings_view(r@);
        r.push(a[i].edge_type.clone());
        assert(all[i as int] == a@[i as int]@);
        assert(edge_types_of(all.take(i + 1)) =~= edge_types_of(all.take(i as int)).push(all[i as int].edge_type));
        assert(strings_view(r@) =~= r0.push(a@[i as int].edge_type@));
        i = i + 1;
    }
    let mut j: usize = 0;
    while j < b.len()
        invariant
            j <= b@.len(),
            all == views(a@) + views(b@),
            strings_view(r@) == edge_types_of(all.take(a@.len() + j)),
        decreases b@.len() - j,
    {
        let ghost r0 = strings_view(r@);
        r.push(b[j].edge_type.clone());
        assert(all[a@.len() + j] == b@[j as int]@);
        assert(edge_types_of(all.take(a@.len() + j + 1)) =~= edge_types_of(all.take(a@.len() + j)).push(
            all[a@.len() + j].edge_type,
        ));
        assert(strings_view(r@) =~= r0.push(b@[j as int].edge_type@));
        j = j + 1;
    }
    assert(all.take((a@.len() + b@.len()) as int) =~= all);
    r
}

/// Checks a request against the operation it names and the delta it would
/// apply.
pub fn validate_operation_request(request: &OperationRequest, delta: &GraphDelta) -> (r: Vec<Finding>)
    ensures
        findings_full(r@) == request_findings(
            request.operation@,
            request.schema_version@,
            request.actor@,
            json_view(request.input),
            *delta,
        ),
{
    let mut findings: Vec<Finding> = Vec::new();
    assert(findings_full(findings@) =~= Seq::empty());
    let d = match find_operation(request.operation.as_str()) {
        Some(d) => d,
        None => {
            push_err(&mut findings, "operation.unknown", msg3("Unknown operation `", &string_chars(&request.operation), "`"));
            return findings;
        },
    };
    let opc = string_chars(&request.operation);
    if !eq_str(&string_chars(&request.schema_version), OPERATION_REQUEST_SCHEMA_VERSION) {
        let mut m = chars_of("Operation `");
        append(&mut m, &opc);
        append_str(&mut m, "` request schemaVersion `");
        append(&mut m, &string_chars(&request.schema_version));
        append_str(&mut m, "` is unsupported; expected `");
        append_str(&mut m, OPERATION_REQUEST_SCHEMA_VERSION);
        append_str(&mut m, "`. Remediation: regenerate the request using the current Operation ABI schema.");
        push_err(&mut findings, "operation.schema_version_unsupported", string_of(&m));
    }
    assert(findings_full(findings@) =~= schema_findings(request.operation@, request.schema_version@));
    push_actor_findings(&mut findings, &request.operation, &request.actor);
    push_input_findings(&mut findings, d, &request.input);
    let nts = node_types_in(&delta.create_nodes, &delta.update_nodes);
    push_type_findings(&mut findings, "operation.node_type_not_allowed", "node", d.name, d.allowed_create_node_types, &nts);
    let ets = edge_types_in(&delta.create_edges, &delta.update_edges);
    push_type_findings(&mut findings, "operation.edge_type_not_allowed", "edge", d.name, d.allowed_create_edge_types, &ets);
    findings
}


// ------------------------------------------------------------ pre/post

/// One finding for each id whose presence among `keys` is `flagged`, in
/// order: `before`, the id, `after`.
pub open spec fn id_findings(
    ids: Seq<Seq<char>>,
    keys: Set<Seq<char>>,
    flagged: bool,
    code: Seq<char>,
    before: Seq<char>,
    after: Seq<char>,
) -> Seq<FullFinding>
    decreases ids.len(),
{
    if ids.len() == 0 {
        Seq::empty()
    } else {
        id_findings(ids.drop_last(), keys, flagged, code, before, after) + if keys.contains(ids.last()) == flagged {
            err(code, before + ids.last() + after)
        } else {
            Seq::<FullFinding>::empty()
        }
    }
}

pub open spec fn node_ids(ns: Seq<NodeV>) -> Seq<Seq<char>> {
    ns.map_values(|n: NodeV| n.id)
}

pub open spec fn edge_ids_of(es: Seq<EdgeV>) -> Seq<Seq<char>> {
    es.map_values(|e: EdgeV| e.id)
}

/// What a delta is refused for before it is applied: creating what exists,
/// and updating or deleting what does not, in that order of kinds.
pub open spec fn precondition_findings(g_nodes: Set<Seq<char>>, g_edges: Set<Seq<char>>, d: GraphDelta) -> Seq<FullFinding> {
    id_findings(
        node_ids(views(d.create_nodes@)),
        g_nodes,
        true,
        "operation.precondition.node_already_exists"@,
        "Cannot create node `"@,
        "` because it already exists. Remediation: use an update operation or choose a unique node id."@,
    ) + id_findings(
        edge_ids_of(views(d.create_edges@)),
        g_edges,
        true,
        "operation.precondition.edge_already_exists"@,
        "Cannot create edge `"@,
        "` because it already exists. Remediation: use an update operation or choose a unique edge id."@,
    ) + id_findings(
        node_ids(views(d.update_nodes@)),
        g_nodes,
        false,
        "operation.precondition.node_missing_for_update"@,
        "Cannot update node `"@,
        "` because it does not exist. Remediation: create the node before updating it."@,
    ) + id_findings(
        edge_ids_of(views(d.update_edges@)),
        g_edges,
        false,
        "operation.precondition.edge_missing_for_update"@,
        "Cannot update edge `"@,
        "` because it does not exist. Remediation: create the edge before updating it."@,
    ) + id_findings(
        strings_view(d.delete_nodes@),
        g_nodes,
        false,
        "operation.precondition.node_missing_for_delete"@,
        "Cannot delete node `"@,
        "` because it does not exist. Remediation: remove the delete request or create the node first."@,
    ) + id_findings(
        strings_view(d.delete_edges@),
        g_edges,
        false,
        "operation.precondition.edge_missing_for_delete"@,
        "Cannot delete edge `"@,
        "` because it does not exist. Remediation: remove the delete request or create the edge first."@,
    )
}

/// What an applied delta is reported for: a created or updated fact that is
/// absent, a deleted one that remains.
pub open spec fn postcondition_findings(g_nodes: Set<Seq<char>>, g_edges: Set<Seq<char>>, d: GraphDelta) -> Seq<FullFinding> {
    id_findings(
        node_ids(views(d.create_nodes@) + views(d.update_nodes@)),
        g_nodes,
        false,
        "operation.postcondition.node_not_present"@,
        "Node `"@,
        "` should exist after operation but is absent. Remediation: inspect graph delta application."@,
    ) + id_findings(
        edge_ids_of(views(d.create_edges@) + views(d.update_edges@)),
        g_edges,
        false,
        "operation.postcondition.edge_not_present"@,
        "Edge `"@,
        "` should exist after operation but is absent. Remediation: inspect graph delta application."@,
    ) + id_findings(
        strings_view(d.delete_nodes@),
        g_nodes,
        true,
        "operation.postcondition.node_still_present"@,
        "Node `"@,
        "` should be absent after operation but still exists. Remediation: inspect graph delta application."@,
    ) + id_findings(
        strings_view(d.delete_edges@),
        g_edges,
        true,
        "operation.postcondition.edge_still_present"@,
        "Edge `"@,
        "` should be absent after operation but still exists. Remediation: inspect graph delta application."@,
    )
}

/// Whether an id's presence among `keys` is `flagged`.
pub open spec fn flagged_by(keys: Set<Seq<char>>, flagged: bool) -> spec_fn(Seq<char>) -> bool {
    |x: Seq<char>| keys.contains(x) == flagged
}

proof fn lemma_id_findings_len(
    ids: Seq<Seq<char>>,
    keys: Set<Seq<char>>,
    flagged: bool,
    code: Seq<char>,
    before: Seq<char>,
    after: Seq<char>,
)
    ensures
        id_findings(ids, keys, flagged, code, before, after).len() == ids.filter(flagged_by(keys, flagged)).len(),
    decreases ids.len(),
{
    reveal(Seq::filter);
    if ids.len() > 0 {
        lemma_id_findings_len(ids.drop_last(), keys, flagged, code, before, after);
    }
}

/// A delta is refused once for each id it creates that the graph already
/// holds, and once for each id it updates or deletes that the graph lacks.
pub proof fn precondition_findings_counted(g_nodes: Set<Seq<char>>, g_edges: Set<Seq<char>>, d: GraphDelta)
    ensures
        precondition_findings(g_nodes, g_edges, d).len() == node_ids(views(d.create_nodes@)).filter(
            flagged_by(g_nodes, true),
        ).len() + edge_ids_of(views(d.create_edges@)).filter(flagged_by(g_edges, true)).len() + node_ids(
            views(d.update_nodes@),
        ).filter(flagged_by(g_nodes, false)).len() + edge_ids_of(views(d.update_edges@)).filter(
            flagged_by(g_edges, false),
        ).len() + strings_view(d.delete_nodes@).filter(flagged_by(g_nodes, false)).len() + strings_view(
            d.delete_edges@,
        ).filter(flagged_by(g_edges, false)).len(),
{
    lemma_id_findings_len(
        node_ids(views(d.create_nodes@)),
        g_nodes,
        true,
        "operation.precondition.node_already_exists"@,
        "Cannot create node `"@,
        "` because it already exists. Remediation: use an update operation or choose a unique node id."@,
    );
    lemma_id_findings_len(
        edge_ids_of(views(d.create_edges@)),
        g_edges,
        true,
        "operation.precondition.edge_already_exists"@,
        "Cannot create edge `"@,
        "` because it already exists. Remediation: use an update operation or choose a unique edge id."@,
    );
    lemma_id_findings_len(
        node_ids(views(d.update_nodes@)),
        g_nodes,
        false,
        "operation.precondition.node_missing_for_update"@,
        "Cannot update node `"@,
        "` because it does not exist. Remediation: create the node before updating it."@,
    );
    lemma_id_findings_len(
        edge_ids_of(views(d.update_edges@)),
        g_edges,
        false,
        "operation.precondition.edge_missing_for_update"@,
        "Cannot update edge `"@,
        "` because it does not exist. Remediation: create the edge before updating it."@,
    );
    lemma_id_findings_len(
        strings_view(d.delete_nodes@),
        g_nodes,
        false,
        "operation.precondition.node_missing_for_delete"@,
        "Cannot delete node `"@,
        "` because it does not exist. Remediation: remove the delete request or create the node first."@,
    );
    lemma_id_findings_len(
        strings_view(d.delete_edges@),
        g_edges,
        false,
        "operation.precondition.edge_missing_for_delete"@,
        "Cannot delete edge `"@,
        "` because it does not exist. Remediation: remove the delete request or create the edge first."@,
    );
}

proof fn lemma_filter_all_len(ids: Seq<Seq<char>>, keys: Set<Seq<char>>, flagged: bool)
    requires
        forall|i: int| 0 <= i < ids.len() ==> keys.contains(#[trigger] ids[i]) == flagged,
    ensures
        ids.filter(flagged_by(keys, flagged)).len() == ids.len(),
    decreases ids.len(),
{
    reveal(Seq::filter);
    if ids.len() > 0 {
        assert(ids.last() == ids[ids.len() - 1]);
        lemma_filter_all_len(ids.drop_last(), keys, flagged);
    }
}

proof fn lemma_filter_none_len(ids: Seq<Seq<char>>, keys: Set<Seq<char>>, flagged: bool)
    requires
        forall|i: int| 0 <= i < ids.len() ==> keys.contains(#[trigger] ids[i]) != flagged,
    ensures
        ids.filter(flagged_by(keys, flagged)).len() == 0,
    decreases ids.len(),
{
    reveal(Seq::filter);
    if ids.len() > 0 {
        assert(ids.last() == ids[ids.len() - 1]);
        lemma_filter_none_len(ids.drop_last(), keys, flagged);
    }
}

/// Checked against a graph that holds nothing, an applied delta is reported
/// once for each node and edge it created or updated (as absent), and never
/// for what it deleted.
pub proof fn postconditions_on_empty_graph(d: GraphDelta)
    ensures
        postcondition_findings(Set::empty(), Set::empty(), d).len() == d.create_nodes@.len() + d.update_nodes@.len()
            + d.create_edges@.len() + d.update_edges@.len(),
{
    let none = Set::<Seq<char>>::empty();
    let n_ids = node_ids(views(d.create_nodes@) + views(d.update_nodes@));
    let e_ids = edge_ids_of(views(d.create_edges@) + views(d.update_edges@));
    lemma_id_findings_len(
        n_ids,
        none,
        false,
        "operation.postcondition.node_not_present"@,
        "Node `"@,
        "` should exist after operation but is absent. Remediation: inspect graph delta application."@,
    );
    lemma_id_findings_len(
        e_ids,
        none,
        false,
        "operation.postcondition.edge_not_present"@,
        "Edge `"@,
        "` should exist after operation but is absent. Remediation: inspect graph delta application."@,
    );
    lemma_id_findings_len(
        strings_view(d.delete_nodes@),
        none,
        true,
        "operation.postcondition.node_still_present"@,
        "Node `"@,
        "` should be absent after operation but still exists. Remediation: inspect graph delta application."@,
    );
    lemma_id_findings_len(
        strings_view(d.delete_edges@),
        none,
        true,
        "operation.postcondition.edge_still_present"@,
        "Edge `"@,
        "` should be absent after operation but still exists. Remediation: inspect graph delta application."@,
    );
    lemma_filter_all_len(n_ids, none, false);
    lemma_filter_all_len(e_ids, none, false);
    lemma_filter_none_len(strings_view(d.delete_nodes@), none, true);
    lemma_filter_none_len(strings_view(d.delete_edges@), none, true);
}

fn push_id_findings(
    findings: &mut Vec<Finding>,
    graph: &Graph,
    ids: &Vec<String>,
    of_nodes: bool,
    flagged: bool,
    code: &str,
    before: &str,
    after: &str,
)
    ensures
        findings_full(final(findings)@) == findings_full(old(findings)@) + id_findings(
            strings_view(ids@),
            if of_nodes {
                graph.node_map().dom()
            } else {
                graph.edge_map().dom()
            },
            flagged,
            code@,
            before@,
            after@,
        ),
{
    let ghost keys = if of_nodes {
        graph.node_map().dom()
    } else {
        graph.edge_map().dom()
    };
    let ghost v = strings_view(ids@);
    let ghost f0 = findings_full(findings@);
    let mut i: usize = 0;
    assert(f0 + id_findings(v.take(0), keys, flagged, code@, before@, after@) =~= f0);
    while i < ids.len()
        invariant
            i <= v.len(),
            v == strings_view(ids@),
            keys == if of_nodes {
                graph.node_map().dom()
            } else {
                graph.edge_map().dom()
            },
            findings_full(findings@) == f0 + id_findings(v.take(i as int), keys, flagged, code@, before@, after@),
        decreases v.len() - i,
    {
        let id = ids[i].as_str();
        assert(v[i as int] == id@);
        assert(v.take(i + 1).drop_last() =~= v.take(i as int));
        let present = if of_nodes {
            graph.node(id).is_some()
        } else {
            graph.edge(id).is_some()
        };
        let ghost f1 = findings_full(findings@);
        if present == flagged {
            push_err(findings, code, msg3(before, &chars_of(id), after));
        } else {
            assert(findings_full(findings@) =~= f1 + Seq::<FullFinding>::empty());
        }
        i = i + 1;
    }
    assert(v.take(v.len() as int) =~= v);
}

fn ids_of_nodes(a: &Vec<Node>, b: &Vec<Node>) -> (r: Vec<String>)
    ensures
        strings_view(r@) == node_ids(views(a@) + views(b@)),
{
    let mut r: Vec<String> = Vec::new();
    let ghost all = views(a@) + views(b@);
    let mut i: usize = 0;
    while i < a.len()
        invariant
            i <= a@.len(),
            all == views(a@) + views(b@),
            strings_view(r@) == node_ids(all.take(i as int)),
        decreases a@.len() - i,
    {
        let ghost r0 = strings_view(r@);
        r.push(a[i].id.clone());
        assert(all[i as int] == a@[i as int]@);
        assert(node_ids(all.take(i + 1)) =~= node_ids(all.take(i as int)).push(all[i as int].id));
        assert(strings_view(r@) =~= r0.push(a@[i as int].id@));
        i = i + 1;
    }
    let mut j: usize = 0;
    while j < b.len()
        invariant
            j <= b@.len(),
            all == views(a@) + views(b@),
            strings_view(r@) == node_ids(all.take(a@.len() + j)),
        decreases b@.len() - j,
    {
        let ghost r0 = strings_view(r@);
        r.push(b[j].id.clone());
        assert(all[a@.len() + j] == b@[j as int]@);
        assert(node_ids(all.take(a@.len() + j + 1)) =~= node_ids(all.take(a@.len() + j)).push(all[a@.len() + j].id));
        assert(strings_view(r@) =~= r0.push(b@[j as int].id@));
        j = j + 1;
    }
    assert(all.take((a@.len() + b@.len()) as int) =~= all);
    r
}

fn ids_of_edges(a: &Vec<Edge>, b: &Vec<Edge>) -> (r: Vec<String>)
    ensures
        strings_view(r@) == edge_ids_of(views(a@) + views(b@)),
{
    let mut r: Vec<String> = Vec::new();
    let ghost all = views(a@) + views(b@);
    let mut i: usize = 0;
    while i < a.len()
        invariant
            i <= a@.len(),
            all == views(a@) + views(b@),
            strings_view(r@) == edge_ids_of(all.take(i as int)),
        decreases a@.len() - i,
    {
        let ghost r0 = strings_view(r@);
        r.push(a[i].id.clone());
        assert(all[i as int] == a@[i as int]@);
        assert(edge_ids_of(all.take(i + 1)) =~= edge_ids_of(all.take(i as int)).push(all[i as int].id));
        assert(strings_view(r@) =~= r0.push(a@[i as int].id@));
        i = i + 1;
    }
    let mut j: usize = 0;
    while j < b.len()
        invariant
            j <= b@.len(),
            all == views(a@) + views(b@),
            strings_view(r@) == edge_ids_of(all.take(a@.len() + j)),
        decreases b@.len() - j,
    {
        let ghost r0 = strings_view(r@);
        r.push(b[j].id.clone());
        assert(all[a@.len() + j] == b@[j as int]@);
        assert(edge_ids_of(all.take(a@.len() + j + 1)) =~= edge_ids_of(all.take(a@.len() + j)).push(
            all[a@.len() + j].id,
        ));
        assert(strings_view(r@) =~= r0.push(b@[j as int].id@));
        j = j + 1;
    }
    assert(all.take((a@.len() + b@.len()) as int) =~= all);
    r
}

/// What a delta is refused for before it is applied to `graph`.
pub fn validate_operation_preconditions(graph: &Graph, delta: &GraphDelta) -> (r: Vec<Finding>)
    ensures
        findings_full(r@) == precondition_findings(graph.node_map().dom(), graph.edge_map().dom(), *delta),
{
    let mut findings: Vec<Finding> = Vec::new();
    assert(findings_full(findings@) =~= Seq::empty());
    let none_n: Vec<Node> = Vec::new();
    let none_e: Vec<Edge> = Vec::new();
    assert(views(none_n@) =~= Seq::<NodeV>::empty());
    assert(views(none_e@) =~= Seq::<EdgeV>::empty());
    assert(views(delta.create_nodes@) + views(none_n@) =~= views(delta.create_nodes@));
    assert(views(delta.create_edges@) + views(none_e@) =~= views(delta.create_edges@));
    assert(views(delta.update_nodes@) + views(none_n@) =~= views(delta.update_nodes@));
    assert(views(delta.update_edges@) + views(none_e@) =~= views(delta.update_edges@));
    push_id_findings(
        &mut findings,
        graph,
        &ids_of_nodes(&delta.create_nodes, &none_n),
        true,
        true,
        "operation.precondition.node_already_exists",
        "Cannot create node `",
        "` because it already exists. Remediation: use an update operation or choose a unique node id.",
    );
    push_id_findings(
        &mut findings,
        graph,
        &ids_of_edges(&delta.create_edges, &none_e),
        false,
        true,
        "operation.precondition.edge_already_exists",
        "Cannot create edge `",
        "` because it already exists. Remediation: use an update operation or choose a unique edge id.",
    );
    push_id_findings(
        &mut findings,
        graph,
        &ids_of_nodes(&delta.update_nodes, &none_n),
        true,
        false,
        "operation.precondition.node_missing_for_update",
        "Cannot update node `",
        "` because it does not exist. Remediation: create the node before updating it.",
    );
    push_id_findings(
        &mut findings,
        graph,
        &ids_of_edges(&delta.update_edges, &none_e),
        false,
        false,
        "operation.precondition.edge_missing_for_update",
        "Cannot update edge `",
        "` because it does not exist. Remediation: create the edge before updating it.",
    );
    push_id_findings(
        &mut findings,
        graph,
        &delta.delete_nodes,
        true,
        false,
        "operation.precondition.node_missing_for_delete",
        "Cannot delete node `",
        "` because it does not exist. Remediation: remove the delete request or create the node first.",
    );
    push_id_findings(
        &mut findings,
        graph,
        &delta.delete_edges,
        false,
        false,
        "operation.precondition.edge_missing_for_delete",
        "Cannot delete edge `",
        "` because it does not exist. Remediation: remove the delete request or create the edge first.",
    );
    findings
}

/// What an applied delta is reported for, against the graph after it.
pub fn validate_operation_postconditions(graph: &Graph, delta: &GraphDelta) -> (r: Vec<Finding>)
    ensures
        findings_full(r@) == postcondition_findings(graph.node_map().dom(), graph.edge_map().dom(), *delta),
{
    let mut findings: Vec<Finding> = Vec::new();
    assert(findings_full(findings@) =~= Seq::empty());
    push_id_findings(
        &mut findings,
        graph,
        &ids_of_nodes(&delta.create_nodes, &delta.update_nodes),
        true,
        false,
        "operation.postcondition.node_not_present",
        "Node `",
        "` should exist after operation but is absent. Remediation: inspect graph delta application.",
    );
    push_id_findings(
        &mut findings,
        graph,
        &ids_of_edges(&delta.create_edges, &delta.update_edges),
        false,
        false,
        "operation.postcondition.edge_not_present",
        "Edge `",
        "` should exist after operation but is absent. Remediation: inspect graph delta application.",
    );
    push_id_findings(
        &mut findings,
        graph,
        &delta.delete_nodes,
        true,
        true,
        "operation.postcondition.node_still_present",
        "Node `",
        "` should be absent after operation but still exists. Remediation: inspect graph delta application.",
    );
    push_id_findings(
        &mut findings,
        graph,
        &delta.delete_edges,
        false,
        true,
        "operation.postcondition.edge_still_present",
        "Edge `",
        "` should be absent after operation but still exists. Remediation: inspect graph delta application.",
    );
    findings
}


pub proof fn lemma_insert_keyed_dom<T: Keyed>(m: Map<Seq<char>, T::V>, s: Seq<T::V>, k: Seq<char>)
    ensures
        insert_keyed::<T>(m, s).contains_key(k) == (m.contains_key(k) || has_key::<T>(s, k)),
    decreases s.len(),
{
    if s.len() > 0 {
        lemma_insert_keyed_dom::<T>(m, s.drop_last(), k);
        if has_key::<T>(s, k) && T::view_key(s.last()) != k {
            let i = choose|i: int| 0 <= i < s.len() && T::view_key(#[trigger] s[i]) == k;
            assert(s.drop_last()[i] == s[i]);
        }
        if has_key::<T>(s.drop_last(), k) {
            let i = choose|i: int| 0 <= i < s.drop_last().len() && T::view_key(#[trigger] s.drop_last()[i]) == k;
            assert(s[i] == s.drop_last()[i]);
        }
    }
}

proof fn lemma_no_id_findings(
    ids: Seq<Seq<char>>,
    keys: Set<Seq<char>>,
    flagged: bool,
    code: Seq<char>,
    before: Seq<char>,
    after: Seq<char>,
)
    requires
        forall|i: int| 0 <= i < ids.len() ==> keys.contains(#[trigger] ids[i]) != flagged,
    ensures
        id_findings(ids, keys, flagged, code, before, after) == Seq::<FullFinding>::empty(),
    decreases ids.len(),
{
    if ids.len() > 0 {
        assert(keys.contains(ids[ids.len() - 1]) != flagged);
        assert forall|i: int| 0 <= i < ids.drop_last().len() implies keys.contains(#[trigger] ids.drop_last()[i])
            != flagged by {
            assert(ids.drop_last()[i] == ids[i]);
        }
        lemma_no_id_findings(ids.drop_last(), keys, flagged, code, before, after);
    }
}

/// After a delta is applied, every fact it creates or updates is present
/// and every fact it deletes is gone, so the postcondition check finds
/// nothing; this holds where no id is both deleted and written.
pub proof fn applied_delta_meets_postconditions(
    nodes: Map<Seq<char>, NodeV>,
    edges: Map<Seq<char>, EdgeV>,
    d: GraphDelta,
)
    requires
        forall|k: Seq<char>|
            strings_view(d.delete_nodes@).contains(k) ==> !node_ids(views(d.create_nodes@) + views(d.update_nodes@)).contains(k),
        forall|k: Seq<char>|
            strings_view(d.delete_edges@).contains(k) ==> !edge_ids_of(views(d.create_edges@) + views(d.update_edges@)).contains(k),
    ensures
        postcondition_findings(delta_nodes(nodes, d).dom(), delta_edges(edges, d).dom(), d) == Seq::<FullFinding>::empty(),
{
    let cn = views(d.create_nodes@);
    let un = views(d.update_nodes@);
    let ce = views(d.create_edges@);
    let ue = views(d.update_edges@);
    let dn = strings_view(d.delete_nodes@);
    let de = strings_view(d.delete_edges@);
    let nb = remove_keys(nodes, dn);
    let eb = remove_keys(edges, de);
    let nm = delta_nodes(nodes, d);
    let em = delta_edges(edges, d);
    let wn = node_ids(cn + un);
    let we = edge_ids_of(ce + ue);
    assert forall|i: int| 0 <= i < wn.len() implies nm.dom().contains(#[trigger] wn[i]) != false by {
        let k = wn[i];
        lemma_insert_keyed_dom::<Node>(nb, cn, k);
        lemma_insert_keyed_dom::<Node>(insert_keyed::<Node>(nb, cn), un, k);
        if i < cn.len() {
            assert((cn + un)[i] == cn[i]);
            assert(Node::view_key(cn[i]) == k);
        } else {
            assert((cn + un)[i] == un[i - cn.len()]);
            assert(Node::view_key(un[i - cn.len()]) == k);
        }
    }
    assert forall|i: int| 0 <= i < we.len() implies em.dom().contains(#[trigger] we[i]) != false by {
        let k = we[i];
        lemma_insert_keyed_dom::<Edge>(eb, ce, k);
        lemma_insert_keyed_dom::<Edge>(insert_keyed::<Edge>(eb, ce), ue, k);
        if i < ce.len() {
            assert((ce + ue)[i] == ce[i]);
            assert(Edge::view_key(ce[i]) == k);
        } else {
            assert((ce + ue)[i] == ue[i - ce.len()]);
            assert(Edge::view_key(ue[i - ce.len()]) == k);
        }
    }
    assert forall|i: int| 0 <= i < dn.len() implies nm.dom().contains(#[trigger] dn[i]) != true by {
        let k = dn[i];
        assert(dn.contains(k));
        assert(!wn.contains(k));
        lemma_remove_keys(nodes, dn, k);
        assert(!has_key::<Node>(cn, k)) by {
            if has_key::<Node>(cn, k) {
                let j = choose|j: int| 0 <= j < cn.len() && Node::view_key(#[trigger] cn[j]) == k;
                assert(wn[j] == k);
            }
        }
        assert(!has_key::<Node>(un, k)) by {
            if has_key::<Node>(un, k) {
                let j = choose|j: int| 0 <= j < un.len() && Node::view_key(#[trigger] un[j]) == k;
                assert(wn[cn.len() + j] == k);
            }
        }
        lemma_insert_keyed_dom::<Node>(nb, cn, k);
        lemma_insert_keyed_dom::<Node>(insert_keyed::<Node>(nb, cn), un, k);
    }
    assert forall|i: int| 0 <= i < de.len() implies em.dom().contains(#[trigger] de[i]) != true by {
        let k = de[i];
        assert(de.contains(k));
        assert(!we.contains(k));
        lemma_remove_keys(edges, de, k);
        assert(!has_key::<Edge>(ce, k)) by {
            if has_key::<Edge>(ce, k) {
                let j = choose|j: int| 0 <= j < ce.len() && Edge::view_key(#[trigger] ce[j]) == k;
                assert(we[j] == k);
            }
        }
        assert(!has_key::<Edge>(ue, k)) by {
            if has_key::<Edge>(ue, k) {
                let j = choose|j: int| 0 <= j < ue.len() && Edge::view_key(#[trigger] ue[j]) == k;
                assert(we[ce.len() + j] == k);
            }
        }
        lemma_insert_keyed_dom::<Edge>(eb, ce, k);
        lemma_insert_keyed_dom::<Edge>(insert_keyed::<Edge>(eb, ce), ue, k);
    }
    lemma_no_id_findings(
        wn,
        nm.dom(),
        false,
        "operation.postcondition.node_not_present"@,
        "Node `"@,
        "` should exist after operation but is absent. Remediation: inspect graph delta application."@,
    );
    lemma_no_id_findings(
        we,
        em.dom(),
        false,
        "operation.postcondition.edge_not_present"@,
        "Edge `"@,
        "` should exist after operation but is absent. Remediation: inspect graph delta application."@,
    );
    lemma_no_id_findings(
        dn,
        nm.dom(),
        true,
        "operation.postcondition.node_still_present"@,
        "Node `"@,
        "` should be absent after operation but still exists. Remediation: inspect graph delta application."@,
    );
    lemma_no_id_findings(
        de,
        em.dom(),
        true,
        "operation.postcondition.edge_still_present"@,
        "Edge `"@,
        "` should be absent after operation but still exists. Remediation: inspect graph delta application."@,
    );
}

} // verus!
