use shield::detector::{scan_pii, Finding, FindingKind};
use shield::luhn::luhn_check;
use shield::normalize::normalize_text;
use shield::wire::{handle_request, render_findings};

fn count_kind(findings: &[Finding], kind: FindingKind) -> usize {
    findings.iter().filter(|f| f.kind == kind).count()
}

#[test]
fn normalize_strips_zero_width_and_lowercases() {
    assert_eq!(normalize_text("AbC\u{200B}12"), "abc12");
    assert_eq!(normalize_text("\u{200B}\u{200C}\u{200D}\u{200E}\u{200F}\u{FEFF}"), "");
    assert_eq!(normalize_text(""), "");
    assert_eq!(normalize_text("abc"), "abc");
}

#[test]
fn normalize_is_idempotent_on_samples() {
    for s in ["AbC\u{200B}12 \u{FEFF}Z", "", "no digits here", "4111-1111 1111.1111"] {
        let once = normalize_text(s);
        let twice = normalize_text(&once);
        assert_eq!(twice, once);
    }
}

#[test]
fn luhn_known_vectors() {
    assert!(luhn_check("4111111111111111"));
    assert!(!luhn_check("4111111111111112"));
}

#[test]
fn luhn_ignores_separators() {
    assert_eq!(luhn_check("4111 1111 1111 1111"), luhn_check("4111111111111111"));
    assert!(luhn_check("4111-1111-1111-1111"));
    assert!(luhn_check("4.1.1.1 1111-1111 1111"));
}

#[test]
fn luhn_length_bounds() {
    // All-zero sequences have Luhn sum zero, so only length decides.
    assert!(!luhn_check("000000000000"));
    assert!(luhn_check("0000000000000"));
    assert!(luhn_check("0000000000000000000"));
    assert!(!luhn_check("00000000000000000000"));
}

#[test]
fn ssn_not_flagged_below_nine_digits() {
    let findings = scan_pii("call 12345678 soon");
    assert_eq!(count_kind(&findings, FindingKind::SsnHeuristic), 0);
}

#[test]
fn ssn_flagged_once_at_nine_digits() {
    let findings = scan_pii("ssn 123456789");
    assert_eq!(count_kind(&findings, FindingKind::SsnHeuristic), 1);
}

#[test]
fn ssn_flagged_once_above_nine_digits() {
    // Digits split by letters so no credit-card run can form.
    let findings = scan_pii("1x2x3x4x5x6x7x8x9x0x1x2x3x4x5x6x7x8x9x0");
    assert_eq!(count_kind(&findings, FindingKind::SsnHeuristic), 1);
    assert_eq!(count_kind(&findings, FindingKind::CreditCard), 0);
}

#[test]
fn ssn_counts_digits_hidden_by_zero_width() {
    // Nine digits interleaved with zero-width characters still count.
    let findings = scan_pii("12345\u{200B}6789");
    assert_eq!(count_kind(&findings, FindingKind::SsnHeuristic), 1);
}

#[test]
fn card_run_detected_with_separators() {
    let findings = scan_pii("card 4111-1111-1111-1111 here");
    assert_eq!(count_kind(&findings, FindingKind::CreditCard), 1);
}

#[test]
fn card_run_outside_length_range_not_detected() {
    // Twelve digits with Luhn sum zero: arithmetically valid, too short.
    let twelve = scan_pii("a 000000000000 b");
    assert_eq!(count_kind(&twelve, FindingKind::CreditCard), 0);
    // Twenty digits with Luhn sum divisible by ten, built so that every
    // suffix of acceptable length has sum one: too long, and no retry
    // from a later position can succeed either.
    let twenty = scan_pii("a 90000001000000000000 b");
    assert_eq!(count_kind(&twenty, FindingKind::CreditCard), 0);
}

#[test]
fn card_detected_despite_zero_width_obfuscation() {
    // Normalization strips the zero-width character, so the digits
    // rejoin into one Luhn-valid run.
    let findings = scan_pii("4111\u{200B}1111-1111 1111");
    assert_eq!(count_kind(&findings, FindingKind::CreditCard), 1);
}

#[test]
fn adjacent_valid_runs_both_detected() {
    let findings = scan_pii("4111111111111111 and 4111111111111111");
    assert_eq!(count_kind(&findings, FindingKind::CreditCard), 2);
}

#[test]
fn findings_order_is_ssn_then_cards() {
    let findings = scan_pii("4111111111111111 and 4111111111111111");
    assert_eq!(findings.len(), 3);
    assert_eq!(findings[0].kind, FindingKind::SsnHeuristic);
    assert_eq!(findings[1].kind, FindingKind::CreditCard);
    assert_eq!(findings[2].kind, FindingKind::CreditCard);
}

#[test]
fn failed_candidate_retries_from_next_position() {
    // The run starting at the first digit fails Luhn, but the run
    // starting one position later is valid.
    let text = format!("9{}", "4111111111111111");
    let findings = scan_pii(&text);
    assert_eq!(count_kind(&findings, FindingKind::CreditCard), 1);
}

#[test]
fn long_zero_run_accepts_valid_suffix() {
    // A run of twenty zeros is rejected at full length, but the retry
    // from the next position finds its Luhn-valid nineteen-zero suffix.
    let findings = scan_pii("a 00000000000000000000 b");
    assert_eq!(count_kind(&findings, FindingKind::CreditCard), 1);
}

#[test]
fn render_empty_and_single() {
    assert_eq!(render_findings(&vec![]), "[]");
    assert_eq!(
        render_findings(&vec![Finding { kind: FindingKind::CreditCard }]),
        "[{\"type\":\"FIN_CREDIT_CARD\"}]"
    );
    assert_eq!(
        render_findings(&vec![Finding { kind: FindingKind::SsnHeuristic }]),
        "[{\"type\":\"ID_SSN\"}]"
    );
}

#[test]
fn end_to_end_ssn_and_card() {
    let response = handle_request("SSN 123456789 and card 4111-1111-1111-1111");
    assert_eq!(response, "[{\"type\":\"ID_SSN\"},{\"type\":\"FIN_CREDIT_CARD\"}]");
}

#[test]
fn end_to_end_empty_body() {
    assert_eq!(handle_request(""), "[]");
}

#[test]
fn end_to_end_no_findings() {
    assert_eq!(handle_request("nothing sensitive here"), "[]");
}
