//! The registry of built-in validators and their lifecycle records.

use crate::text::str_eq;
use vstd::prelude::*;

verus! {

pub const CORE_VALIDATOR_VERSION: &'static str = "0.1.0";

pub const VALIDATOR_CODE_SCOPE: &'static str = "validator.code_scope";
pub const VALIDATOR_BRANCH_METADATA: &'static str = "validator.branch_metadata";
pub const VALIDATOR_GIT_BINDING: &'static str = "validator.git_binding";
pub const VALIDATOR_ONTOLOGY: &'static str = "validator.ontology";
pub const VALIDATOR_ONTOLOGY_PACK: &'static str = "validator.ontology_pack";
pub const VALIDATOR_OPERATION_ABI: &'static str = "validator.operation_abi";
pub const VALIDATOR_POLICY: &'static str = "validator.policy";
pub const VALIDATOR_SNAPSHOT: &'static str = "validator.snapshot";
pub const VALIDATOR_TRACE_LINKS: &'static str = "validator.trace_links";
pub const VALIDATOR_ADAPTER_TRUST: &'static str = "validator.adapter_trust";

#[derive(Debug, Clone, Copy, PartialEq, Eq, Structural)]
pub enum ValidatorExecutionStatus {
    Passed,
    Failed,
    Skipped,
}

/// One run of a validator.
#[derive(Debug, Clone, PartialEq, Eq)]
pub struct ValidatorExecution {
    pub run_id: String,
    pub validator: String,
    pub validator_version: String,
    pub status: ValidatorExecutionStatus,
    pub finding_count: usize,
}

#[derive(Debug, Clone, Copy, PartialEq, Eq)]
pub struct ValidatorDefinition {
    pub id: &'static str,
    pub version: &'static str,
    pub system_area: &'static str,
    pub description: &'static str,
}

pub open spec fn validator_view(v: ValidatorDefinition) -> (Seq<char>, Seq<char>, Seq<char>, Seq<char>) {
    (v.id@, v.version@, v.system_area@, v.description@)
}

/// The built-in validators: id, version, system area and description, in registry order.
pub open spec fn validator_table() -> Seq<(Seq<char>, Seq<char>, Seq<char>, Seq<char>)> {
    seq![
        (VALIDATOR_OPERATION_ABI@, CORE_VALIDATOR_VERSION@, "Operation Runtime ABI"@, "Validates operation inputs, actors, allowed delta types, and generic mutation pre/postconditions."@),
        (VALIDATOR_ONTOLOGY@, CORE_VALIDATOR_VERSION@, "Ontology System"@, "Validates graph type legality, edge endpoints, stable keys, cardinality, and MVP graph invariants."@),
        (VALIDATOR_ONTOLOGY_PACK@, CORE_VALIDATOR_VERSION@, "Ontology Pack Registry"@, "Validates ontology pack identity, semantic versions, type names, duplicates, and migrations."@),
        (VALIDATOR_POLICY@, CORE_VALIDATOR_VERSION@, "Policy Engine"@, "Evaluates built-in and manifest policy rules, approvals, roles, and waivers."@),
        (VALIDATOR_GIT_BINDING@, CORE_VALIDATOR_VERSION@, "Git Enforcement"@, "Validates commit trailers against graph specs, action groups, and commit plans."@),
        (VALIDATOR_CODE_SCOPE@, CORE_VALIDATOR_VERSION@, "CodeGraph"@, "Validates changed files against ActionGraph allowed path scopes."@),
        (VALIDATOR_BRANCH_METADATA@, CORE_VALIDATOR_VERSION@, "Graph Branch, Merge, and Rebase"@, "Validates graph branch base metadata against event replay."@),
        (VALIDATOR_TRACE_LINKS@, CORE_VALIDATOR_VERSION@, "Test Mapping"@, "Validates TestCase to AcceptanceCriterion traceability links."@),
        (VALIDATOR_ADAPTER_TRUST@, CORE_VALIDATOR_VERSION@, "Adapter Layer"@, "Validates adapter capabilities, provenance, and observations-only trust boundaries."@),
        (VALIDATOR_SNAPSHOT@, CORE_VALIDATOR_VERSION@, "Event Store"@, "Validates graph snapshots against event replay state hashes."@),
    ]
}

pub fn built_in_validators() -> (r: Vec<ValidatorDefinition>)
    ensures
        r@.map_values(|v: ValidatorDefinition| validator_view(v)) == validator_table(),
{
    let r = vec![
        ValidatorDefinition {
            id: VALIDATOR_OPERATION_ABI,
            version: CORE_VALIDATOR_VERSION,
            system_area: "Operation Runtime ABI",
            description: "Validates operation inputs, actors, allowed delta types, and generic mutation pre/postconditions.",
        },
        ValidatorDefinition {
            id: VALIDATOR_ONTOLOGY,
            version: CORE_VALIDATOR_VERSION,
            system_area: "Ontology System",
            description: "Validates graph type legality, edge endpoints, stable keys, cardinality, and MVP graph invariants.",
        },
        ValidatorDefinition {
            id: VALIDATOR_ONTOLOGY_PACK,
            version: CORE_VALIDATOR_VERSION,
            system_area: "Ontology Pack Registry",
            description: "Validates ontology pack identity, semantic versions, type names, duplicates, and migrations.",
        },
        ValidatorDefinition {
            id: VALIDATOR_POLICY,
            version: CORE_VALIDATOR_VERSION,
            system_area: "Policy Engine",
            description: "Evaluates built-in and manifest policy rules, approvals, roles, and waivers.",
        },
        ValidatorDefinition {
            id: VALIDATOR_GIT_BINDING,
            version: CORE_VALIDATOR_VERSION,
            system_area: "Git Enforcement",
            description: "Validates commit trailers against graph specs, action groups, and commit plans.",
        },
        ValidatorDefinition {
            id: VALIDATOR_CODE_SCOPE,
            version: CORE_VALIDATOR_VERSION,
            system_area: "CodeGraph",
            description: "Validates changed files against ActionGraph allowed path scopes.",
        },
        ValidatorDefinition {
            id: VALIDATOR_BRANCH_METADATA,
            version: CORE_VALIDATOR_VERSION,
            system_area: "Graph Branch, Merge, and Rebase",
            description: "Validates graph branch base metadata against event replay.",
        },
        ValidatorDefinition {
            id: VALIDATOR_TRACE_LINKS,
            version: CORE_VALIDATOR_VERSION,
            system_area: "Test Mapping",
            description: "Validates TestCase to AcceptanceCriterion traceability links.",
        },
        ValidatorDefinition {
            id: VALIDATOR_ADAPTER_TRUST,
            version: CORE_VALIDATOR_VERSION,
            system_area: "Adapter Layer",
            description: "Validates adapter capabilities, provenance, and observations-only trust boundaries.",
        },
        ValidatorDefinition {
            id: VALIDATOR_SNAPSHOT,
            version: CORE_VALIDATOR_VERSION,
            system_area: "Event Store",
            description: "Validates graph snapshots against event replay state hashes.",
        },
    ];
    assert(r@.map_values(|v: ValidatorDefinition| validator_view(v)) =~= validator_table());
    r
}

/// The built-in validator with the given id, if any.
pub fn find_validator(id: &str) -> (r: Option<ValidatorDefinition>)
    ensures
        r is Some <==> exists|i: int| 0 <= i < validator_table().len() && (#[trigger] validator_table()[i]).0 == id@,
        r matches Some(v) ==> v.id@ == id@ && validator_table().contains(validator_view(v)),
{
    let all = built_in_validators();
    let ghost table = validator_table();
    let mut i: usize = 0;
    while i < all.len()
        invariant
            i <= all@.len(),
            all@.map_values(|v: ValidatorDefinition| validator_view(v)) == table,
            table == validator_table(),
            forall|k: int| 0 <= k < i ==> (#[trigger] table[k]).0 != id@,
        decreases all@.len() - i,
    {
        if str_eq(all[i].id, id) {
            assert(table[i as int] == validator_view(all@[i as int]));
            return Some(all[i]);
        }
        assert(table[i as int] == validator_view(all@[i as int]));
        i = i + 1;
    }
    None
}

} // verus!
