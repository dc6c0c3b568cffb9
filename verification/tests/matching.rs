use dojo_migrate::api::models::Finding;
use dojo_migrate::matching::engine::correlate_findings;
use dojo_migrate::matching::keys::{file_key, single_scanner_id};
use dojo_migrate::matching::models::CorrelationClass;

fn finding(id: u64) -> Finding {
    Finding {
        id,
        title: "Command Injection".to_owned(),
        found_by: vec![187],
        line: Some(42),
        file_path: Some("src/main.rs".to_owned()),
        component_name: Some("library".to_owned()),
        component_version: Some("1.0".to_owned()),
        active: true,
        verified: false,
        fixed: false,
        unfixed: false,
        false_p: false,
        duplicate: false,
        out_of_scope: false,
        risk_accepted: false,
        is_mitigated: false,
        description: String::new(),
        mitigation: None,
        impact: None,
    }
}

fn false_positive(id: u64) -> Finding {
    let mut finding = finding(id);
    finding.active = false;
    finding.false_p = true;
    finding
}

fn key_finding() -> Finding {
    Finding {
        id: 1,
        title: "  Command Injection  ".to_owned(),
        found_by: vec![187],
        line: Some(42),
        file_path: Some("src\\main.rs".to_owned()),
        component_name: Some("example".to_owned()),
        component_version: Some("1.0".to_owned()),
        active: true,
        verified: false,
        fixed: false,
        unfixed: false,
        false_p: false,
        duplicate: false,
        out_of_scope: false,
        risk_accepted: false,
        is_mitigated: false,
        description: String::new(),
        mitigation: None,
        impact: None,
    }
}

#[test]
fn active_target_is_ready_to_apply() {
    let source = false_positive(1);
    let target = finding(2);
    let results = correlate_findings(&[source], &[target], 4);
    assert_eq!(results[0].class, CorrelationClass::ReadyToApply);
    assert_eq!(results[0].candidate_ids, vec![2]);
}

#[test]
fn equal_status_is_already_up_to_date() {
    let source = false_positive(1);
    let target = false_positive(2);
    let results = correlate_findings(&[source], &[target], 4);
    assert_eq!(results[0].class, CorrelationClass::AlreadyUpToDate);
}

#[test]
fn triaged_different_target_is_conflict() {
    let source = false_positive(1);
    let mut target = finding(2);
    target.verified = true;
    let results = correlate_findings(&[source], &[target], 4);
    assert_eq!(results[0].class, CorrelationClass::StatusConflict);
}

#[test]
fn different_component_version_is_possible_match() {
    let mut source = false_positive(1);
    let mut target = finding(2);
    source.file_path = None;
    source.line = None;
    source.component_version = Some("1.0".to_owned());
    target.file_path = None;
    target.line = None;
    target.component_version = Some("2.0".to_owned());
    let results = correlate_findings(&[source], &[target], 4);
    assert_eq!(results[0].class, CorrelationClass::PossibleMatch);
    assert_eq!(results[0].candidate_ids, vec![2]);
}

#[test]
fn version_missing_on_one_side_is_possible_match() {
    let mut source = false_positive(1);
    let mut target = finding(2);
    source.file_path = None;
    source.line = None;
    source.component_version = None;
    target.file_path = None;
    target.line = None;
    target.component_version = Some("2.0".to_owned());
    let results = correlate_findings(&[source], &[target], 4);
    assert_eq!(results[0].class, CorrelationClass::PossibleMatch);
}

#[test]
fn version_missing_on_both_sides_is_exact_match() {
    let mut source = false_positive(1);
    let mut target = finding(2);
    source.file_path = None;
    source.line = None;
    source.component_version = None;
    target.file_path = None;
    target.line = None;
    target.component_version = None;
    let results = correlate_findings(&[source], &[target], 4);
    assert_eq!(results[0].class, CorrelationClass::ReadyToApply);
}

#[test]
fn scanner_is_mandatory() {
    let mut source = false_positive(1);
    let target = finding(2);
    source.found_by.clear();
    let results = correlate_findings(&[source], &[target], 4);
    assert_eq!(results[0].class, CorrelationClass::InsufficientData);
}

#[test]
fn scanner_must_match() {
    let source = false_positive(1);
    let mut target = finding(2);
    target.found_by = vec![999];
    let results = correlate_findings(&[source], &[target], 4);
    assert_eq!(results[0].class, CorrelationClass::NotFound);
}

#[test]
fn multiple_exact_candidates_are_ambiguous() {
    let source = false_positive(1);
    let first_target = finding(2);
    let second_target = finding(3);
    let results = correlate_findings(&[source], &[first_target, second_target], 4);
    assert_eq!(results[0].class, CorrelationClass::Ambiguous);
    assert_eq!(results[0].candidate_ids, vec![2, 3]);
}

#[test]
fn same_target_found_by_both_branches_is_not_ambiguous() {
    let source = false_positive(1);
    let target = finding(2);
    let results = correlate_findings(&[source], &[target], 4);
    assert_eq!(results[0].class, CorrelationClass::ReadyToApply);
    assert_eq!(results[0].candidate_ids, vec![2]);
}

#[test]
fn scanner_must_have_exactly_one_value() {
    let mut finding = key_finding();
    assert_eq!(single_scanner_id(&finding), Some(187));
    finding.found_by.clear();
    assert_eq!(single_scanner_id(&finding), None);
    finding.found_by = vec![187, 188];
    assert_eq!(single_scanner_id(&finding), None);
}

#[test]
fn title_is_trimmed() {
    let key = file_key(&key_finding()).unwrap();
    assert_eq!(key.title, "Command Injection");
}

#[test]
fn path_is_not_normalized() {
    let key = file_key(&key_finding()).unwrap();
    assert_eq!(key.file_path, "src\\main.rs");
}

// Further cases of the matching rules.

#[test]
fn source_product_results_keep_source_order_and_product() {
    let sources = vec![false_positive(1), false_positive(5)];
    let targets = vec![finding(2)];
    let results = correlate_findings(&sources, &targets, 7);
    assert_eq!(results.len(), 2);
    assert_eq!(results[0].source_finding_id, 1);
    assert_eq!(results[1].source_finding_id, 5);
    assert_eq!(results[1].target_product_id, 7);
    assert_eq!(results[0].source_title, "Command Injection");
}

#[test]
fn no_target_at_all_is_not_found() {
    let source = false_positive(1);
    let results = correlate_findings(&[source], &[], 4);
    assert_eq!(results[0].class, CorrelationClass::NotFound);
    assert!(results[0].candidate_ids.is_empty());
    assert_eq!(results[0].candidate_ids_display(), "-");
}

#[test]
fn candidate_ids_are_displayed_with_commas() {
    let source = false_positive(1);
    let results = correlate_findings(&[source], &[finding(12), finding(3)], 4);
    assert_eq!(results[0].candidate_ids_display(), "3, 12");
}

#[test]
fn class_labels_are_the_variant_names() {
    assert_eq!(CorrelationClass::ReadyToApply.label(), "ReadyToApply");
    assert_eq!(CorrelationClass::InsufficientData.label(), "InsufficientData");
    assert_eq!(CorrelationClass::Ambiguous.label(), "Ambiguous");
}

#[test]
fn line_must_match_for_a_file_key() {
    let source = false_positive(1);
    let mut target = finding(2);
    target.line = Some(43);
    target.component_name = None;
    let results = correlate_findings(&[source], &[target], 4);
    assert_eq!(results[0].class, CorrelationClass::NotFound);
}

#[test]
fn untriaged_source_against_untriaged_target() {
    let source = finding(1);
    let target = finding(2);
    let results = correlate_findings(&[source], &[target], 4);
    assert_eq!(results[0].class, CorrelationClass::AlreadyUpToDate);
}
