//! Title classifier fixtures: one literal case per documented title shape.
use fsledger::classify::classify_title;

fn tb(s: &str) -> Vec<u8> {
    s.as_bytes().to_vec()
}

#[test]
fn classify_deposit_title() {
    let (narration, comment) = classify_title(&tb("Deposit"));
    assert_eq!(narration, tb("Funding Societies"));
    assert_eq!(comment, tb("Deposit"));
}

#[test]
fn classify_withdrawal_title() {
    let (narration, comment) = classify_title(&tb("Withdrawal to bank account"));
    assert_eq!(narration, tb("Funding Societies"));
    assert_eq!(comment, tb("Withdrawal to bank account"));
}

#[test]
fn classify_invested_title() {
    let (narration, comment) = classify_title(&tb(
        "Auto Investment: invested 500 into ABCD-12345678",
    ));
    assert_eq!(narration, tb("ABCD-12345678"));
    assert_eq!(comment, tb("Auto Investment"));
}

#[test]
fn classify_invested_title_without_markers_keeps_title() {
    let (narration, comment) = classify_title(&tb("invested"));
    assert_eq!(narration, tb("invested"));
    assert_eq!(comment, tb("invested"));
}

#[test]
fn classify_repayment_title() {
    let (narration, comment) = classify_title(&tb("XXXX-00000000 (1 of 1 repayment)"));
    assert_eq!(narration, tb("XXXX-00000000"));
    assert_eq!(comment, tb("1 of 1 repayment"));
}

#[test]
fn classify_reverted_repayment_title() {
    let (narration, comment) = classify_title(&tb("Revert XXXX-00000000 (2 of 3 repayment)"));
    assert_eq!(narration, tb("XXXX-00000000"));
    assert_eq!(comment, tb("2 of 3 repayment"));
}

#[test]
fn classify_adjustment_title() {
    let title = "Adjustment for investment to ABCD-12345678";
    let (narration, comment) = classify_title(&tb(title));
    assert_eq!(narration, tb(title));
    assert_eq!(comment, tb("Adjustment"));
}

#[test]
fn classify_plain_title_strips_revert() {
    let (narration, comment) = classify_title(&tb("Revert Service Charge"));
    assert_eq!(narration, tb("Service Charge"));
    assert_eq!(comment, tb(""));
}

#[test]
fn classify_plain_title_untouched() {
    let (narration, comment) = classify_title(&tb("Monthly Statement Fee"));
    assert_eq!(narration, tb("Monthly Statement Fee"));
    assert_eq!(comment, tb(""));
}
