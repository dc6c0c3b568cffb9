//! The command line: its commands and arguments, and how `apply` chooses
//! between previewing and writing.
use vstd::prelude::*;

verus! {

/// The parsed command line.
#[derive(Debug)]
pub struct Cli {
    /// Path to the TOML configuration file.
    pub config: String,
    pub command: Command,
}

/// What the tool is asked to do.
#[derive(Debug)]
pub enum Command {
    /// Build a migration plan without changing DefectDojo.
    Plan(PlanArgs),
    /// Validate a migration CSV and its associated JSON plan.
    Validate(ValidateArgs),
    /// Apply or preview a previously generated migration plan.
    Apply(ApplyArgs),
}

/// The arguments of `plan`.
#[derive(Debug)]
pub struct PlanArgs {
    /// Base name for the CSV and JSON files of the plan.
    pub output_name: String,
}

/// The arguments of `validate`.
#[derive(Debug)]
pub struct ValidateArgs {
    /// CSV file containing the decided migration rows.
    pub decisions: String,
}

/// The arguments of `apply`.
#[derive(Debug)]
pub struct ApplyArgs {
    /// CSV file containing the decided migration rows.
    pub decisions: String,
    /// Explicitly confirm that changes may be sent to DefectDojo.
    pub execute: bool,
    /// Explicitly run in read-only preview mode (the default).
    pub dry_run: bool,
}

/// Whether `apply` only previews or writes to DefectDojo.
#[derive(Debug, Clone, Copy, PartialEq, Eq, Structural)]
pub enum ExecutionMode {
    DryRun,
    Execute,
}

impl ApplyArgs {
    /// Writing happens only when `--execute` was given; otherwise the run is
    /// a preview.
    pub fn execution_mode(&self) -> (m: ExecutionMode)
        ensures
            m == (if self.execute {
                ExecutionMode::Execute
            } else {
                ExecutionMode::DryRun
            }),
    {
        if self.execute {
            ExecutionMode::Execute
        } else {
            ExecutionMode::DryRun
        }
    }
}

/// The text of a list of product ids: `<none>` when it is empty, otherwise
/// the ids joined with `, `.
pub open spec fn product_ids_text(ids: Seq<u64>) -> Seq<char> {
    if ids.len() == 0 {
        "<none>"@
    } else {
        crate::text::join_text(crate::text::decimals(ids), ", "@)
    }
}

/// The product ids as they are shown to the user.
pub fn format_product_ids(product_ids: &Vec<u64>) -> (s: String)
    ensures
        s@ == product_ids_text(product_ids@),
{
    if product_ids.len() == 0 {
        return String::from_str("<none>");
    }
    crate::text::join_decimals(product_ids, ", ")
}

/// The read-only inspection needs a plan name that is not blank.
pub fn check_inspection_name(output_name: &str) -> (r: Result<(), crate::error::AppError>)
    ensures
        r is Ok <==> !crate::text::is_blank(output_name@),
        r matches Err(e) ==> (e matches crate::error::AppError::InvalidConfig(msg) && msg@
            == "  - plan output name cannot be empty"@),
{
    if crate::text::blank(output_name) {
        return Err(
            crate::error::AppError::InvalidConfig(
                String::from_str("  - plan output name cannot be empty"),
            ),
        );
    }
    Ok(())
}

} // verus!
