use dojo_migrate::cli::{ApplyArgs, ExecutionMode, check_inspection_name, format_product_ids};

#[test]
fn apply_previews_unless_execute_is_given() {
    let args = ApplyArgs { decisions: "m.csv".to_owned(), execute: false, dry_run: false };
    assert_eq!(args.execution_mode(), ExecutionMode::DryRun);
    let args = ApplyArgs { decisions: "m.csv".to_owned(), execute: false, dry_run: true };
    assert_eq!(args.execution_mode(), ExecutionMode::DryRun);
    let args = ApplyArgs { decisions: "m.csv".to_owned(), execute: true, dry_run: false };
    assert_eq!(args.execution_mode(), ExecutionMode::Execute);
}

#[test]
fn product_ids_are_listed() {
    assert_eq!(format_product_ids(&vec![]), "<none>");
    assert_eq!(format_product_ids(&vec![187]), "187");
    assert_eq!(format_product_ids(&vec![1, 20, 300]), "1, 20, 300");
}

#[test]
fn inspection_needs_a_plan_name() {
    assert!(check_inspection_name("migration").is_ok());
    let error = check_inspection_name("  ").unwrap_err();
    assert_eq!(error.message(), "configuration is invalid:\n  - plan output name cannot be empty");
}
