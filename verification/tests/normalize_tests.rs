//! Tests of the destination-number normalizer.

use comms_sdk::models::DiagnosticKind;
use comms_sdk::utils::{normalize_report, validate_numbers};

fn strs(v: &[&str]) -> Vec<String> {
    v.iter().map(|s| s.to_string()).collect()
}

fn sorted(mut v: Vec<String>) -> Vec<String> {
    v.sort();
    v
}

#[test]
fn dedup_across_forms_collapses_to_one() {
    let out = validate_numbers(strs(&["0712345678", "+256712345678", "256712345678"]));
    assert_eq!(out, vec!["256712345678".to_string()]);
}

#[test]
fn rejects_report_one_diagnostic_each() {
    let inputs = strs(&["12345", "", "  ", "0812345678x"]);
    let (out, diags) = normalize_report(&inputs);
    assert!(out.is_empty());
    assert_eq!(diags.len(), 4);
    assert_eq!(diags[0].kind, DiagnosticKind::InvalidNumber);
    assert_eq!(diags[0].value, "12345");
    assert_eq!(diags[1].kind, DiagnosticKind::BlankNumber);
    assert_eq!(diags[1].value, "");
    assert_eq!(diags[2].kind, DiagnosticKind::BlankNumber);
    assert_eq!(diags[2].value, "  ");
    assert_eq!(diags[3].kind, DiagnosticKind::InvalidNumber);
    assert_eq!(diags[3].value, "0812345678x");
}

#[test]
fn normalize_is_idempotent_on_its_output() {
    let first = validate_numbers(strs(&[
        "0712345678",
        "256700000000",
        "+256 701-234-567",
        "bogus",
    ]));
    let second = validate_numbers(first.clone());
    assert_eq!(sorted(first), sorted(second));
}

#[test]
fn local_form_gets_country_prefix() {
    let out = validate_numbers(strs(&["0712345678"]));
    assert_eq!(out, vec!["256712345678".to_string()]);
}

#[test]
fn plus_prefix_is_dropped() {
    let out = validate_numbers(strs(&["+256712345678"]));
    assert_eq!(out, vec!["256712345678".to_string()]);
}

#[test]
fn bare_international_passes_through() {
    let out = validate_numbers(strs(&["255712345678"]));
    assert_eq!(out, vec!["255712345678".to_string()]);
}

#[test]
fn embedded_spaces_and_hyphens_are_stripped() {
    let out = validate_numbers(strs(&["07-12 34-56 78", "\t+256 712 345 678"]));
    assert_eq!(out, vec!["256712345678".to_string()]);
}

#[test]
fn too_short_and_too_long_are_rejected() {
    let (out, diags) = normalize_report(&strs(&["071234567", "07123456789", "2567000000001"]));
    assert!(out.is_empty());
    assert_eq!(diags.len(), 3);
    assert!(diags.iter().all(|d| d.kind == DiagnosticKind::InvalidNumber));
}

#[test]
fn invalid_diagnostic_carries_cleansed_text() {
    let (_, diags) = normalize_report(&strs(&["12-3 45"]));
    assert_eq!(diags.len(), 1);
    assert_eq!(diags[0].kind, DiagnosticKind::InvalidNumber);
    assert_eq!(diags[0].value, "12345");
}

#[test]
fn empty_input_list_reports_once_and_yields_nothing() {
    let (out, diags) = normalize_report(&Vec::new());
    assert!(out.is_empty());
    assert_eq!(diags.len(), 1);
    assert_eq!(diags[0].kind, DiagnosticKind::EmptyInput);
}

#[test]
fn hyphens_only_entry_is_invalid_not_blank() {
    let (out, diags) = normalize_report(&strs(&["---"]));
    assert!(out.is_empty());
    assert_eq!(diags.len(), 1);
    assert_eq!(diags[0].kind, DiagnosticKind::InvalidNumber);
    assert_eq!(diags[0].value, "");
}

#[test]
fn order_of_valid_entries_is_first_occurrence() {
    let out = validate_numbers(strs(&["256700000001", "0712345678", "256700000001"]));
    assert_eq!(
        out,
        vec!["256700000001".to_string(), "256712345678".to_string()]
    );
}
