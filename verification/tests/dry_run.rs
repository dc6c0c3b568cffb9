use std::collections::HashMap;

use dojo_migrate::api::models::{Finding, Note, Product, UserStub};
use dojo_migrate::dry_run::{DryRunOutcome, build_dry_run_report, note_marker, prepare_patch};
use dojo_migrate::plan::files::ApprovedOperation;
use dojo_migrate::plan::models::{MigrationPlan, PLAN_SCHEMA_VERSION};

fn finding(id: u64) -> Finding {
    Finding {
        id,
        title: "Command Injection".to_owned(),
        found_by: vec![187],
        line: Some(42),
        file_path: Some("src/main.rs".to_owned()),
        component_name: None,
        component_version: None,
        active: true,
        verified: false,
        fixed: false,
        unfixed: false,
        false_p: false,
        duplicate: false,
        out_of_scope: false,
        risk_accepted: false,
        is_mitigated: false,
        description: "target description".to_owned(),
        mitigation: None,
        impact: None,
    }
}

fn plan(source: Finding, target: Finding) -> MigrationPlan {
    MigrationPlan {
        schema_version: PLAN_SCHEMA_VERSION,
        created_at_unix_seconds: 1,
        dojo_base_url: "https://dojo.example/".to_owned(),
        source_product: Product { id: 2, name: "source".to_owned() },
        destination_products: Vec::new(),
        source_filters: Vec::new(),
        source_findings: vec![source],
        target_findings: vec![target],
        coverage: Vec::new(),
        operations: Vec::new(),
    }
}

fn note(id: u64, entry: &str) -> Note {
    Note {
        id,
        author: UserStub {
            username: "analyst".to_owned(),
            first_name: "Alice".to_owned(),
            last_name: "Tester".to_owned(),
        },
        date: "2026-07-29T10:15:00Z".to_owned(),
        entry: entry.to_owned(),
    }
}

#[test]
fn transferred_text_is_added_above_target_text() {
    let mut source = finding(1);
    let target = finding(2);
    source.description = "source description".to_owned();
    let patch = prepare_patch(&plan(source.clone(), target.clone()), &source, &target, &[], &[]);
    let description = patch.description.unwrap();
    assert!(description.starts_with(
        "[dojo-migrate source-product=2 \
             source-finding=1 field=description]"
    ));
    assert!(description.ends_with("target description"));
}

#[test]
fn equal_text_is_not_added() {
    let source = finding(1);
    let target = finding(2);
    let patch = prepare_patch(&plan(source.clone(), target.clone()), &source, &target, &[], &[]);
    assert!(patch.description.is_none());
}

#[test]
fn existing_marker_prevents_duplicate_append() {
    let source = finding(1);
    let mut target = finding(2);
    target.description =
        "[dojo-migrate source-product=2 source-finding=1 field=description]\nalready migrated"
            .to_owned();
    let patch = prepare_patch(&plan(source.clone(), target.clone()), &source, &target, &[], &[]);
    assert!(patch.description.is_none());
}

#[test]
fn source_note_is_prepared_for_transfer() {
    let source = finding(1);
    let target = finding(2);
    let source_notes = vec![note(100, "Original analyst comment")];
    let patch =
        prepare_patch(&plan(source.clone(), target.clone()), &source, &target, &source_notes, &[]);
    assert_eq!(patch.notes.len(), 1);
    let prepared = &patch.notes[0];
    assert_eq!(prepared.source_note_id, 100);
    assert!(prepared.entry.contains(
        "[dojo-migrate source-product=2 \
         source-finding=1 source-note=100]"
    ));
    assert!(prepared.entry.contains("Автор исходной заметки: Alice Tester (@analyst)"));
    assert!(prepared.entry.contains("Дата исходной заметки: 2026-07-29T10:15:00Z"));
    assert!(prepared.entry.ends_with("Original analyst comment"));
}

#[test]
fn existing_note_marker_prevents_duplicate_transfer() {
    let source = finding(1);
    let target = finding(2);
    let source_notes = vec![note(100, "Original analyst comment")];
    let target_notes = vec![note(
        200,
        "[dojo-migrate source-product=2 source-finding=1 source-note=100]\nPreviously transferred",
    )];
    let patch = prepare_patch(
        &plan(source.clone(), target.clone()),
        &source,
        &target,
        &source_notes,
        &target_notes,
    );
    assert!(patch.notes.is_empty());
}

#[test]
fn empty_source_note_is_not_prepared() {
    let source = finding(1);
    let target = finding(2);
    let source_notes = vec![note(100, "   \n")];
    let patch =
        prepare_patch(&plan(source.clone(), target.clone()), &source, &target, &source_notes, &[]);
    assert!(patch.notes.is_empty());
}

// Further cases.

#[test]
fn patch_carries_the_source_state() {
    let mut source = finding(1);
    source.active = false;
    source.false_p = true;
    source.is_mitigated = true;
    let target = finding(2);
    let patch = prepare_patch(&plan(source.clone(), target.clone()), &source, &target, &[], &[]);
    assert!(!patch.active);
    assert!(patch.false_p);
    assert!(patch.is_mitigated);
    assert!(!patch.verified);
}

#[test]
fn note_marker_names_product_finding_and_note() {
    assert_eq!(
        note_marker(2, 1, 100),
        "[dojo-migrate source-product=2 source-finding=1 source-note=100]"
    );
}

#[test]
fn transferring_the_prepared_text_again_adds_nothing() {
    let mut source = finding(1);
    let mut target = finding(2);
    source.description = "source description".to_owned();
    let first = prepare_patch(&plan(source.clone(), target.clone()), &source, &target, &[], &[]);
    target.description = first.description.unwrap();
    let second = prepare_patch(&plan(source.clone(), target.clone()), &source, &target, &[], &[]);
    assert!(second.description.is_none());
}

fn approved(row_id: &str, source: u64, target: u64) -> ApprovedOperation {
    ApprovedOperation {
        row_id: row_id.to_owned(),
        source_finding_id: source,
        target_product_id: 4,
        target_finding_id: target,
    }
}

#[test]
fn unchanged_findings_are_ready() {
    let source = finding(1);
    let target = finding(2);
    let plan = plan(source.clone(), target.clone());
    let sources = HashMap::from([(1, source.clone())]);
    let targets = HashMap::from([(2, target.clone())]);
    let report = build_dry_run_report(
        &plan,
        &[approved("target:2", 1, 2)],
        &sources,
        &targets,
        &HashMap::new(),
        &HashMap::new(),
    );
    assert_eq!(report.items.len(), 1);
    assert_eq!(report.items[0].outcome, DryRunOutcome::Ready);
    assert!(report.items[0].patch.is_some());
    assert_eq!(report.items[0].row_id, "target:2");
}

#[test]
fn changed_and_missing_findings_are_reported() {
    let source = finding(1);
    let target = finding(2);
    let plan = plan(source.clone(), target.clone());
    let mut changed_source = source.clone();
    changed_source.verified = true;
    let mut changed_target = target.clone();
    changed_target.title = "Other".to_owned();

    let none: HashMap<u64, Finding> = HashMap::new();
    let report = build_dry_run_report(
        &plan,
        &[approved("a", 1, 2)],
        &none,
        &HashMap::from([(2, target.clone())]),
        &HashMap::new(),
        &HashMap::new(),
    );
    assert_eq!(report.items[0].outcome, DryRunOutcome::SourceMissing);

    let report = build_dry_run_report(
        &plan,
        &[approved("a", 1, 2)],
        &HashMap::from([(1, changed_source)]),
        &HashMap::from([(2, target.clone())]),
        &HashMap::new(),
        &HashMap::new(),
    );
    assert_eq!(report.items[0].outcome, DryRunOutcome::SourceChanged);

    let report = build_dry_run_report(
        &plan,
        &[approved("a", 1, 3)],
        &HashMap::from([(1, source.clone())]),
        &HashMap::from([(3, target.clone())]),
        &HashMap::new(),
        &HashMap::new(),
    );
    assert_eq!(report.items[0].outcome, DryRunOutcome::TargetMissingFromPlan);

    let report = build_dry_run_report(
        &plan,
        &[approved("a", 1, 2)],
        &HashMap::from([(1, source.clone())]),
        &HashMap::from([(2, changed_target)]),
        &HashMap::new(),
        &HashMap::new(),
    );
    assert_eq!(report.items[0].outcome, DryRunOutcome::TargetChanged);
    assert!(report.items[0].patch.is_none());
    assert_eq!(DryRunOutcome::TargetChanged.label(), "TargetChanged");
}
