//! The migration plan: what was downloaded and what is proposed.
use vstd::prelude::*;
use crate::api::models::{Finding, Product};
use crate::config::FilterValue;
use crate::matching::models::{SourceCorrelation, TargetActionClass};

verus! {

/// The version of the plan format that this library writes and reads.
pub const PLAN_SCHEMA_VERSION: u32 = 1;

/// A migration plan, written next to the decision CSV.
#[derive(Debug)]
pub struct MigrationPlan {
    pub schema_version: u32,
    pub created_at_unix_seconds: u64,
    pub dojo_base_url: String,
    pub source_product: Product,
    pub destination_products: Vec<Product>,
    /// The source filters in ascending order of name.
    pub source_filters: Vec<(String, FilterValue)>,
    pub source_findings: Vec<Finding>,
    pub target_findings: Vec<Finding>,
    pub coverage: Vec<SourceCorrelation>,
    pub operations: Vec<PlannedTargetOperation>,
}

/// A proposed transfer from a source finding to an exactly matching target.
#[derive(Debug, Clone)]
pub struct PlannedTargetOperation {
    pub source_finding_id: u64,
    pub source_title: String,
    pub target_product_id: u64,
    pub target_finding_id: u64,
    pub class: TargetActionClass,
    pub default_action: DecisionAction,
}

/// What the user decides for a row of the decision file.
#[derive(Debug, Clone, Copy, PartialEq, Eq, Hash, Structural)]
pub enum DecisionAction {
    ApplyAll,
    Skip,
}

} // verus!
