use dojo_migrate::api::models::{Finding, Product};
use dojo_migrate::error::AppError;
use dojo_migrate::matching::models::{
    CorrelationReport, NotFoundReason, SourceCorrelation, SourceCoverageClass, TargetActionClass,
    TargetOperation,
};
use dojo_migrate::plan::builder::MigrationPlanBuilder;
use dojo_migrate::plan::files::{
    CsvDecisionRow, CsvRowType, DecisionValidator, approved_operations, build_csv_rows, join_ids,
    parse_candidate_ids, validate_output_name,
};
use dojo_migrate::plan::models::{DecisionAction, MigrationPlan, PLAN_SCHEMA_VERSION};

fn finding(id: u64) -> Finding {
    Finding {
        id,
        title: format!("Finding {id}"),
        found_by: vec![187],
        line: Some(42),
        file_path: Some("src/main.rs".to_owned()),
        component_name: None,
        component_version: None,
        active: true,
        verified: false,
        fixed: false,
        unfixed: false,
        false_p: false,
        duplicate: false,
        out_of_scope: false,
        risk_accepted: false,
        is_mitigated: false,
        description: String::new(),
        mitigation: None,
        impact: None,
    }
}

fn product(id: u64) -> Product {
    Product { id, name: format!("product {id}") }
}

fn operation(source: u64, product: u64, target: u64, class: TargetActionClass) -> TargetOperation {
    TargetOperation {
        source_finding_id: source,
        source_title: format!("Finding {source}"),
        target_product_id: product,
        target_finding_id: target,
        class,
    }
}

fn coverage(
    source: u64,
    product: u64,
    class: SourceCoverageClass,
    candidates: Vec<u64>,
    reasons: Vec<NotFoundReason>,
) -> SourceCorrelation {
    SourceCorrelation {
        source_finding_id: source,
        source_title: format!("Finding {source}"),
        target_product_id: product,
        class,
        candidate_ids: candidates,
        not_found_reasons: reasons,
    }
}

fn builder() -> MigrationPlanBuilder {
    MigrationPlanBuilder::new(
        "https://dojo.example/".to_owned(),
        product(2),
        Vec::new(),
        vec![finding(1), finding(5), finding(6)],
    )
}

/// A plan with one operation of each class and two source issues.
fn sample_plan() -> MigrationPlan {
    let mut builder = builder();
    let report = CorrelationReport {
        sources: vec![
            coverage(1, 4, SourceCoverageClass::ExactMatch, vec![20], Vec::new()),
            coverage(5, 4, SourceCoverageClass::PossibleMatch, vec![21, 22], Vec::new()),
            coverage(
                6,
                4,
                SourceCoverageClass::NotFound,
                Vec::new(),
                vec![NotFoundReason::NoMatchingTarget],
            ),
        ],
        target_operations: vec![operation(1, 4, 20, TargetActionClass::ReadyToApply)],
    };
    builder
        .add_destination(product(4), &[finding(22), finding(20), finding(21)], report)
        .unwrap();
    let report = CorrelationReport {
        sources: vec![coverage(1, 7, SourceCoverageClass::ExactMatch, vec![30], Vec::new())],
        target_operations: vec![operation(1, 7, 30, TargetActionClass::AlreadyUpToDate)],
    };
    builder.add_destination(product(7), &[finding(30)], report).unwrap();
    builder.build(1_700_000_000)
}

#[test]
fn built_plan_holds_what_was_gathered() {
    let plan = sample_plan();
    assert_eq!(plan.schema_version, PLAN_SCHEMA_VERSION);
    assert_eq!(plan.created_at_unix_seconds, 1_700_000_000);
    assert_eq!(plan.dojo_base_url, "https://dojo.example/");
    assert_eq!(plan.source_product.id, 2);
    let destinations: Vec<u64> = plan.destination_products.iter().map(|p| p.id).collect();
    assert_eq!(destinations, vec![4, 7]);
    assert_eq!(plan.source_findings.len(), 3);
    let targets: Vec<u64> = plan.target_findings.iter().map(|f| f.id).collect();
    assert_eq!(targets, vec![20, 21, 22, 30]);
    assert_eq!(plan.coverage.len(), 4);
    assert_eq!(plan.operations.len(), 2);
}

#[test]
fn default_actions_follow_the_class() {
    let plan = sample_plan();
    assert_eq!(plan.operations[0].class, TargetActionClass::ReadyToApply);
    assert_eq!(plan.operations[0].default_action, DecisionAction::ApplyAll);
    assert_eq!(plan.operations[1].class, TargetActionClass::AlreadyUpToDate);
    assert_eq!(plan.operations[1].default_action, DecisionAction::Skip);
}

#[test]
fn referenced_target_must_be_downloaded() {
    let mut builder = builder();
    let report = CorrelationReport {
        sources: vec![coverage(5, 4, SourceCoverageClass::PossibleMatch, vec![21, 23], Vec::new())],
        target_operations: vec![operation(1, 4, 25, TargetActionClass::ReadyToApply)],
    };
    let error = builder.add_destination(product(4), &[finding(21), finding(25)], report).unwrap_err();
    match &error {
        AppError::PlanInvariant(message) => assert_eq!(
            message,
            "target finding #23 is referenced by correlation but absent from downloaded data"
        ),
        other => panic!("unexpected error {other:?}"),
    }
    // The findings below the missing id were recorded; nothing else was.
    let plan = builder.build(5);
    let targets: Vec<u64> = plan.target_findings.iter().map(|f| f.id).collect();
    assert_eq!(targets, vec![21]);
    assert!(plan.destination_products.is_empty());
    assert!(plan.operations.is_empty());
}

#[test]
fn later_download_of_a_target_replaces_the_earlier_one() {
    let mut builder = builder();
    let mut first = finding(20);
    first.title = "first".to_owned();
    let mut second = finding(20);
    second.title = "second".to_owned();
    let report = CorrelationReport {
        sources: Vec::new(),
        target_operations: vec![operation(1, 4, 20, TargetActionClass::ReadyToApply)],
    };
    builder.add_destination(product(4), &[first, second], report).unwrap();
    let plan = builder.build(5);
    assert_eq!(plan.target_findings.len(), 1);
    assert_eq!(plan.target_findings[0].title, "second");
}

#[test]
fn decision_rows_are_sorted_by_row_id() {
    let plan = sample_plan();
    let rows = build_csv_rows(&plan);
    let ids: Vec<&str> = rows.iter().map(|r| r.row_id.as_str()).collect();
    assert_eq!(
        ids,
        vec!["source-5-4-PossibleMatch", "source-6-4-NotFound", "target-1-4-20", "target-1-7-30"]
    );
    let possible = &rows[0];
    assert_eq!(possible.row_type, CsvRowType::SourceIssue);
    assert_eq!(possible.candidate_ids, "21|22");
    assert_eq!(possible.class, "PossibleMatch");
    assert_eq!(possible.action, DecisionAction::Skip);
    let not_found = &rows[1];
    assert_eq!(not_found.not_found_reasons, "NoMatchingTarget");
    assert_eq!(not_found.candidate_ids, "");
    let ready = &rows[2];
    assert_eq!(ready.row_type, CsvRowType::TargetOperation);
    assert_eq!(ready.target_finding_id, Some(20));
    assert_eq!(ready.class, "ReadyToApply");
    assert_eq!(ready.action, DecisionAction::ApplyAll);
}

fn validate(plan: &MigrationPlan, rows: &[CsvDecisionRow]) -> Result<(usize, usize, usize), AppError> {
    let mut validator = DecisionValidator::new(plan)?;
    for row in rows {
        validator.accept(row)?;
    }
    let summary = validator.finish()?;
    Ok((summary.total_rows, summary.apply_all_rows, summary.skip_rows))
}

fn message(result: Result<(usize, usize, usize), AppError>) -> String {
    result.unwrap_err().message()
}

#[test]
fn unedited_decision_file_validates() {
    let plan = sample_plan();
    let rows = build_csv_rows(&plan);
    assert_eq!(validate(&plan, &rows).unwrap(), (4, 1, 3));
}

#[test]
fn rows_may_come_in_any_order() {
    let plan = sample_plan();
    let mut rows = build_csv_rows(&plan);
    rows.reverse();
    assert_eq!(validate(&plan, &rows).unwrap(), (4, 1, 3));
}

#[test]
fn selecting_a_possible_candidate_is_accepted_and_approved() {
    let plan = sample_plan();
    let mut rows = build_csv_rows(&plan);
    rows[0].action = DecisionAction::ApplyAll;
    rows[0].selected_target_id = Some(22);
    assert_eq!(validate(&plan, &rows).unwrap(), (4, 2, 2));
    let approved = approved_operations(&rows);
    assert_eq!(approved.len(), 2);
    assert_eq!(approved[0].row_id, "source-5-4-PossibleMatch");
    assert_eq!(approved[0].source_finding_id, 5);
    assert_eq!(approved[0].target_finding_id, 22);
    assert_eq!(approved[1].row_id, "target-1-4-20");
    assert_eq!(approved[1].target_finding_id, 20);
}

#[test]
fn selected_target_must_be_a_candidate() {
    let plan = sample_plan();
    let mut rows = build_csv_rows(&plan);
    rows[0].action = DecisionAction::ApplyAll;
    rows[0].selected_target_id = Some(99);
    assert_eq!(
        message(validate(&plan, &rows)),
        "decision file is invalid: selected target #99 is not an allowed candidate for row 'source-5-4-PossibleMatch'"
    );
}

#[test]
fn applying_without_a_selection_is_refused() {
    let plan = sample_plan();
    let mut rows = build_csv_rows(&plan);
    rows[0].action = DecisionAction::ApplyAll;
    assert_eq!(
        message(validate(&plan, &rows)),
        "decision file is invalid: row 'source-5-4-PossibleMatch' requires selected_target_id"
    );
}

#[test]
fn not_found_row_cannot_be_applied() {
    let plan = sample_plan();
    let mut rows = build_csv_rows(&plan);
    rows[1].action = DecisionAction::ApplyAll;
    assert_eq!(
        message(validate(&plan, &rows)),
        "decision file is invalid: row 'source-6-4-NotFound' has class 'NotFound' and cannot be applied"
    );
}

#[test]
fn up_to_date_row_must_remain_skipped() {
    let plan = sample_plan();
    let mut rows = build_csv_rows(&plan);
    rows[3].action = DecisionAction::ApplyAll;
    assert_eq!(
        message(validate(&plan, &rows)),
        "decision file is invalid: AlreadyUpToDate row 'target-1-7-30' must remain skip"
    );
}

#[test]
fn protected_fields_cannot_change() {
    let plan = sample_plan();
    let mut rows = build_csv_rows(&plan);
    rows[2].source_title = "edited".to_owned();
    assert_eq!(
        message(validate(&plan, &rows)),
        "decision file is invalid: protected fields were changed in row 'target-1-4-20'"
    );
}

#[test]
fn duplicate_unknown_and_missing_rows_are_refused() {
    let plan = sample_plan();
    let rows = build_csv_rows(&plan);
    let mut duplicated = rows.clone();
    duplicated.push(rows[0].clone());
    assert_eq!(
        message(validate(&plan, &duplicated)),
        "decision file is invalid: CSV contains duplicate row_id 'source-5-4-PossibleMatch'"
    );
    let mut unknown = rows.clone();
    unknown[1].row_id = "target-9-9-9".to_owned();
    assert_eq!(
        message(validate(&plan, &unknown)),
        "decision file is invalid: CSV contains unknown row_id 'target-9-9-9'"
    );
    let missing = rows[..2].to_vec();
    assert_eq!(
        message(validate(&plan, &missing)),
        "decision file is invalid: CSV contains 2 rows, but plan expects 4; missing rows include: target-1-4-20, target-1-7-30"
    );
}

#[test]
fn other_schema_version_is_refused() {
    let mut plan = sample_plan();
    plan.schema_version = 2;
    assert_eq!(
        message(validate(&plan, &[])),
        "decision file is invalid: unsupported plan schema version 2; expected 1"
    );
}

#[test]
fn candidate_ids_round_trip() {
    assert_eq!(join_ids(&vec![3, 12, 7]), "3|12|7");
    assert_eq!(parse_candidate_ids("3|12|7").unwrap(), vec![3, 12, 7]);
    assert_eq!(parse_candidate_ids("").unwrap(), Vec::<u64>::new());
    assert_eq!(parse_candidate_ids(&join_ids(&vec![])).unwrap(), Vec::<u64>::new());
    let error = parse_candidate_ids("3|x|7").unwrap_err();
    assert_eq!(error.message(), "decision file is invalid: invalid candidate ID 'x'");
}

#[test]
fn output_names_are_checked() {
    assert!(validate_output_name("migration-2024_01").is_ok());
    let error = validate_output_name("").unwrap_err();
    assert_eq!(
        error.message(),
        "configuration is invalid:\n  - output name may contain only ASCII letters, digits, '-' and '_'"
    );
    assert!(validate_output_name("../escape").is_err());
    assert!(validate_output_name("name with space").is_err());
}
