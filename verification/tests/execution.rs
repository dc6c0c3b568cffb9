use std::collections::HashMap;

use dojo_migrate::api::models::{Finding, Note, Product, UserStub};
use dojo_migrate::dry_run::{DryRunItem, DryRunOutcome, prepare_patch};
use dojo_migrate::execution::{
    ExecutionItem, ExecutionOutcome, ExecutionReport, ExecutionStep, ItemExecution,
};
use dojo_migrate::plan::models::{MigrationPlan, PLAN_SCHEMA_VERSION};

fn finding(id: u64) -> Finding {
    Finding {
        id,
        title: "Command Injection".to_owned(),
        found_by: vec![187],
        line: Some(42),
        file_path: Some("src/main.rs".to_owned()),
        component_name: None,
        component_version: None,
        active: true,
        verified: false,
        fixed: false,
        unfixed: false,
        false_p: false,
        duplicate: false,
        out_of_scope: false,
        risk_accepted: false,
        is_mitigated: false,
        description: "target description".to_owned(),
        mitigation: None,
        impact: None,
    }
}

fn source_finding() -> Finding {
    let mut source = finding(1);
    source.active = false;
    source.false_p = true;
    source.description = "source description".to_owned();
    source
}

fn plan() -> MigrationPlan {
    MigrationPlan {
        schema_version: PLAN_SCHEMA_VERSION,
        created_at_unix_seconds: 1,
        dojo_base_url: "https://dojo.example/".to_owned(),
        source_product: Product { id: 2, name: "source".to_owned() },
        destination_products: Vec::new(),
        source_filters: Vec::new(),
        source_findings: vec![source_finding()],
        target_findings: vec![finding(2)],
        coverage: Vec::new(),
        operations: Vec::new(),
    }
}

fn note(id: u64, entry: &str) -> Note {
    Note {
        id,
        author: UserStub {
            username: "analyst".to_owned(),
            first_name: "Alice".to_owned(),
            last_name: "Tester".to_owned(),
        },
        date: "2026-07-29T10:15:00Z".to_owned(),
        entry: entry.to_owned(),
    }
}

fn dry_run_item(outcome: DryRunOutcome) -> DryRunItem {
    DryRunItem {
        row_id: "target-1-4-2".to_owned(),
        source_finding_id: 1,
        target_product_id: 4,
        target_finding_id: 2,
        outcome,
        patch: None,
    }
}

struct State {
    sources: HashMap<u64, Finding>,
    source_notes: HashMap<u64, Vec<Note>>,
    targets: HashMap<u64, Finding>,
    target_notes: HashMap<u64, Vec<Note>>,
}

fn state(notes: Vec<Note>) -> State {
    State {
        sources: HashMap::from([(1, source_finding())]),
        source_notes: HashMap::from([(1, notes)]),
        targets: HashMap::from([(2, finding(2))]),
        target_notes: HashMap::new(),
    }
}

fn start(state: &State, outcome: DryRunOutcome) -> ItemExecution {
    ItemExecution::start(
        &plan(),
        &dry_run_item(outcome),
        &state.sources,
        &state.source_notes,
        &state.targets,
        &state.target_notes,
    )
}

#[test]
fn item_that_was_not_ready_is_skipped() {
    let state = state(Vec::new());
    let execution = start(&state, DryRunOutcome::SourceChanged);
    assert!(matches!(execution.next_step(), ExecutionStep::Finished));
    let item = execution.into_item();
    assert_eq!(item.outcome, ExecutionOutcome::Skipped);
    assert_eq!(item.errors, vec!["preflight outcome was SourceChanged"]);
    assert_eq!(item.row_id, "target-1-4-2");
    assert!(!item.patch_applied);
}

#[test]
fn vanished_source_fails_the_item() {
    let mut state = state(Vec::new());
    state.sources.clear();
    let item = start(&state, DryRunOutcome::Ready).into_item();
    assert_eq!(item.outcome, ExecutionOutcome::Failed);
    assert_eq!(item.errors, vec!["source finding #1 disappeared from execution state"]);
}

#[test]
fn vanished_target_fails_the_item() {
    let mut state = state(Vec::new());
    state.targets.clear();
    let item = start(&state, DryRunOutcome::Ready).into_item();
    assert_eq!(item.outcome, ExecutionOutcome::Failed);
    assert_eq!(item.errors, vec!["target finding #2 disappeared from execution state"]);
}

#[test]
fn successful_patch_without_notes_applies_the_item() {
    let mut state = state(Vec::new());
    let mut execution = start(&state, DryRunOutcome::Ready);
    let expected = prepare_patch(&plan(), &source_finding(), &finding(2), &[], &[]);
    match execution.next_step() {
        ExecutionStep::PatchFinding { target_finding_id, request } => {
            assert_eq!(target_finding_id, 2);
            assert_eq!(request.description, expected.description);
            assert!(request.false_p);
            assert!(!request.active);
        },
        other => panic!("unexpected step {other:?}"),
    }
    let mut updated = finding(2);
    updated.false_p = true;
    execution.record_patch(Ok(updated), &mut state.targets);
    assert!(state.targets[&2].false_p);
    assert!(matches!(execution.next_step(), ExecutionStep::Finished));
    let item = execution.into_item();
    assert_eq!(item.outcome, ExecutionOutcome::Applied);
    assert!(item.patch_applied);
    assert!(item.errors.is_empty());
}

#[test]
fn failed_patch_fails_the_item() {
    let mut state = state(vec![note(100, "Original analyst comment")]);
    let mut execution = start(&state, DryRunOutcome::Ready);
    execution.record_patch(Err("HTTP 500".to_owned()), &mut state.targets);
    assert!(!state.targets[&2].false_p);
    assert!(matches!(execution.next_step(), ExecutionStep::Finished));
    let item = execution.into_item();
    assert_eq!(item.outcome, ExecutionOutcome::Failed);
    assert_eq!(item.notes_planned, 1);
    assert_eq!(item.notes_created, 0);
    assert_eq!(item.errors, vec!["finding PATCH failed: HTTP 500"]);
}

#[test]
fn notes_are_posted_one_by_one() {
    let mut state =
        state(vec![note(100, "Original analyst comment"), note(101, "Second comment")]);
    let mut execution = start(&state, DryRunOutcome::Ready);
    execution.record_patch(Ok(finding(2)), &mut state.targets);
    match execution.next_step() {
        ExecutionStep::CreateNote { target_finding_id, request } => {
            assert_eq!(target_finding_id, 2);
            assert!(!request.private);
            assert!(request.entry.ends_with("Original analyst comment"));
        },
        other => panic!("unexpected step {other:?}"),
    }
    execution.record_note(Ok(vec![note(500, "stored")]), &mut state.target_notes);
    assert_eq!(state.target_notes[&2][0].id, 500);
    match execution.next_step() {
        ExecutionStep::CreateNote { request, .. } => {
            assert!(request.entry.ends_with("Second comment"));
        },
        other => panic!("unexpected step {other:?}"),
    }
    execution.record_note(Err("timeout".to_owned()), &mut state.target_notes);
    assert!(matches!(execution.next_step(), ExecutionStep::Finished));
    let item = execution.into_item();
    assert_eq!(item.outcome, ExecutionOutcome::PartiallyApplied);
    assert_eq!(item.notes_planned, 2);
    assert_eq!(item.notes_created, 1);
    assert_eq!(item.errors, vec!["source note #101 POST failed: timeout"]);
}

#[test]
fn answers_out_of_turn_change_nothing() {
    let mut state = state(Vec::new());
    let mut execution = start(&state, DryRunOutcome::Ready);
    execution.record_note(Ok(Vec::new()), &mut state.target_notes);
    assert!(state.target_notes.is_empty());
    assert!(matches!(execution.next_step(), ExecutionStep::PatchFinding { .. }));
}

fn item(outcome: ExecutionOutcome) -> ExecutionItem {
    ExecutionItem {
        row_id: "r".to_owned(),
        source_finding_id: 1,
        target_product_id: 4,
        target_finding_id: 2,
        outcome,
        patch_applied: false,
        notes_planned: 0,
        notes_created: 0,
        errors: Vec::new(),
    }
}

#[test]
fn failures_count_partial_and_failed_items() {
    let report = ExecutionReport {
        started_at_unix_seconds: 1,
        finished_at_unix_seconds: 2,
        items: vec![
            item(ExecutionOutcome::Applied),
            item(ExecutionOutcome::PartiallyApplied),
            item(ExecutionOutcome::Failed),
            item(ExecutionOutcome::Skipped),
            item(ExecutionOutcome::Failed),
        ],
    };
    assert_eq!(report.failure_count(), 3);
}

#[test]
fn outcome_labels() {
    let labels: Vec<&str> = ExecutionOutcome::all().into_iter().map(|o| o.label()).collect();
    assert_eq!(labels, vec!["Applied", "PartiallyApplied", "Failed", "Skipped"]);
}
