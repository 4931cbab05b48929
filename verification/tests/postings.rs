//! Posting generation: the sign rule, the comment lookup table, and the
//! refused combinations.
use fsledger::config::Config;
use fsledger::model::{LedgerError, Row};
use fsledger::posting::posting_for_row;

fn pb(s: &str) -> Vec<u8> {
    s.as_bytes().to_vec()
}

fn row(title: &str, comment: &str, debit: &str, credit: &str) -> Row {
    Row {
        date: pb("2024-01-10"),
        title: pb(title),
        comment: pb(comment),
        debit: pb(debit),
        credit: pb(credit),
        balance: pb("900.00"),
    }
}

#[test]
fn posting_sign_negative_when_credit_carries_amount() {
    let cfg = Config::standard();
    let r = row("XXXX-00000000 (1 of 1 repayment)", "Principal", "(0.00)", "100.00");
    let p = posting_for_row(&cfg, &r.title, &r).unwrap();
    assert!(p.negative);
    assert_eq!(p.amount, pb("100.00"));
    assert_eq!(p.account, pb("assets:funds:fundingsocieties"));
    assert_eq!(p.comment, pb("Principal"));
}

#[test]
fn posting_sign_positive_when_debit_carries_amount() {
    let cfg = Config::standard();
    let r = row("Revert XXXX-00000000 (1 of 1 repayment)", "Interest", "1.50", "(0.00)");
    let p = posting_for_row(&cfg, &r.title, &r).unwrap();
    assert!(!p.negative);
    assert_eq!(p.amount, pb("1.50"));
    assert_eq!(p.account, pb("income:interest"));
}

#[test]
fn posting_comment_table_routes_accounts() {
    let cfg = Config::standard();
    let cases: Vec<(&str, &str)> = vec![
        ("Service Fee", "expenses:service"),
        ("Interest", "income:interest"),
        ("Late Interest Fee", "income:interest"),
        ("Early Payment Fee", "income:interest"),
        ("Returns", "income:interest"),
        ("Late Returns Fee", "income:interest"),
        ("Principal", "assets:funds:fundingsocieties"),
    ];
    for (comment, account) in cases {
        let r = row("T (1 of 1 repayment)", comment, "(0.00)", "7.00");
        let p = posting_for_row(&cfg, &r.title, &r).unwrap();
        assert_eq!(p.account, pb(account), "comment {comment}");
    }
}

#[test]
fn posting_deposit_goes_to_bank_negative() {
    let cfg = Config::standard();
    let r = row("Deposit", "", "0.00", "250.00");
    let p = posting_for_row(&cfg, &r.title, &r).unwrap();
    assert_eq!(p.account, pb("assets:bank:pbe"));
    assert!(p.negative);
    assert_eq!(p.amount, pb("250.00"));
    assert_eq!(p.comment, pb("Deposit"));
}

#[test]
fn posting_withdrawal_goes_to_bank_positive() {
    let cfg = Config::standard();
    let r = row("Withdrawal to bank", "", "80.00", "0.00");
    let p = posting_for_row(&cfg, &r.title, &r).unwrap();
    assert_eq!(p.account, pb("assets:bank:pbe"));
    assert!(!p.negative);
    assert_eq!(p.amount, pb("80.00"));
    assert_eq!(p.comment, pb("Withdrawal to bank"));
}

#[test]
fn posting_invested_goes_to_funds_positive() {
    let cfg = Config::standard();
    let r = row("Auto Investment: invested 100 into XXXX-00000000", "", "100.00", "0.00");
    let p = posting_for_row(&cfg, &r.title, &r).unwrap();
    assert_eq!(p.account, pb("assets:funds:fundingsocieties"));
    assert!(!p.negative);
    assert_eq!(p.amount, pb("100.00"));
    assert_eq!(p.comment, pb("Auto Investment"));
}

#[test]
fn posting_adjustment_credit_only() {
    let cfg = Config::standard();
    let r = row("Adjustment for investment to XXXX", "", "(0.00)", "42.00");
    let p = posting_for_row(&cfg, &r.title, &r).unwrap();
    assert_eq!(p.account, pb("assets:funds:fundingsocieties"));
    assert!(p.negative);
    assert_eq!(p.amount, pb("42.00"));
    assert_eq!(p.comment, pb("Adjustment"));
}

#[test]
fn posting_adjustment_with_debit_is_refused() {
    let cfg = Config::standard();
    let r = row("Adjustment for investment to XXXX", "", "5.00", "0.00");
    let e = posting_for_row(&cfg, &r.title, &r).unwrap_err();
    assert!(matches!(e, LedgerError::UnsupportedAdjustment(_)));
}

#[test]
fn posting_unknown_comment_is_refused() {
    let cfg = Config::standard();
    let r = row("T (1 of 1 repayment)", "Mystery Fee", "(0.00)", "7.00");
    let e = posting_for_row(&cfg, &r.title, &r).unwrap_err();
    assert!(matches!(e, LedgerError::UnrecognizedPosting(_)));
}

#[test]
fn posting_both_sides_nonzero_is_refused() {
    let cfg = Config::standard();
    let r = row("T (1 of 1 repayment)", "Principal", "3.00", "7.00");
    let e = posting_for_row(&cfg, &r.title, &r).unwrap_err();
    assert!(matches!(e, LedgerError::UnrecognizedPosting(_)));
}
