//! SpecGraph core: graph facts, ontology rules, stable keys and the
//! lightweight observers that turn source text into graph observations.

pub mod text;
pub mod ids;
pub mod model;
pub mod policy;
pub mod keyed;
pub mod stable_key;
pub mod ontology;
pub mod validation;
pub mod semver;
pub mod ontology_pack;
pub mod operation_abi;
pub mod code_indexer;
pub mod migration_runtime;
pub mod git;
pub mod data_graph;
pub mod git_graph;
pub mod module_graph;
pub mod test_runner;
pub mod store;
pub mod graph_merge;
pub mod adoption;
pub mod architecture_pack;
pub mod drift;
pub mod impact;
pub mod trace;
pub mod spec;
pub mod query;
pub mod issue_graph;
pub mod proposal;
pub mod store_ops;
pub mod pack_install;
pub mod store_checks;
