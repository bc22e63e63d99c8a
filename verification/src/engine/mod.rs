//! The rule engine: rule metadata, match and action clauses, audit records, bundles.
pub mod rule_metadata;
pub mod match_clause;
pub mod action_clause;
pub mod audit_record;
pub mod rule_bundle;
pub mod execution_constraints;
pub mod hot_reload;
pub mod rule_table;
pub mod bundle_crud;
pub mod bundle_validation;
