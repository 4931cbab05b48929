//! Formatter lines: exact column layout, the width failure, and the
//! render/re-parse round trip.
use fsledger::config::Config;
use fsledger::model::LedgerError;
use fsledger::render::{balance, header, pay};
use fsledger::reparse::parse_pay_line;

fn fb(s: &str) -> Vec<u8> {
    s.as_bytes().to_vec()
}

fn fs(v: Vec<u8>) -> String {
    String::from_utf8(v).unwrap()
}

#[test]
fn header_line_with_comment() {
    let line = header(&fb("2024-01-10"), &fb("XXXX-00000000 (1 of 1 repayment)"));
    assert_eq!(fs(line), "2024-01-10 * XXXX-00000000  ; 1 of 1 repayment\n");
}

#[test]
fn header_line_without_comment() {
    let line = header(&fb("2024-01-10"), &fb("Monthly Statement Fee"));
    assert_eq!(fs(line), "2024-01-10 * Monthly Statement Fee\n");
}

#[test]
fn balance_line_layout() {
    let cfg = Config::standard();
    let line = balance(&cfg, &fb("900.00")).unwrap();
    // pad: 62 - 8 (tab) - 23 (asset) + 3 (commodity) + 1
    let expected = format!("\tassets:fundingsocieties{} = 900.00 MYR\n", " ".repeat(35));
    assert_eq!(fs(line), expected);
}

#[test]
fn pay_line_layout_negative() {
    let cfg = Config::standard();
    let line = pay(&cfg, &fb("assets:funds:fundingsocieties"), true, &fb("100.00"), &fb(
        "Principal",
    )).unwrap();
    // pad: 62 - 8 - 29 - 1 - 6 - 1
    let expected = format!(
        "\tassets:funds:fundingsocieties{} -100.00 MYR  ; Principal\n",
        " ".repeat(17),
    );
    assert_eq!(fs(line), expected);
}

#[test]
fn pay_line_layout_positive() {
    let cfg = Config::standard();
    let line = pay(&cfg, &fb("income:interest"), false, &fb("1.50"), &fb("Interest")).unwrap();
    // pad: 62 - 8 - 15 - 0 - 4 - 1
    let expected = format!("\tincome:interest{} 1.50 MYR  ; Interest\n", " ".repeat(34));
    assert_eq!(fs(line), expected);
}

#[test]
fn pay_too_wide_is_refused() {
    let mut cfg = Config::standard();
    cfg.line_width = 10;
    let e = pay(&cfg, &fb("assets:funds:fundingsocieties"), true, &fb("100.00"), &fb("x"))
        .unwrap_err();
    assert!(matches!(e, LedgerError::LineWidthExceeded));
}

#[test]
fn balance_too_wide_is_refused() {
    let mut cfg = Config::standard();
    cfg.line_width = 4;
    let e = balance(&cfg, &fb("900.00")).unwrap_err();
    assert!(matches!(e, LedgerError::LineWidthExceeded));
}

#[test]
fn pay_line_round_trips_account_and_amount() {
    let cfg = Config::standard();
    let line = pay(&cfg, &fb("assets:funds:fundingsocieties"), true, &fb("1,234.56"), &fb(
        "Principal",
    )).unwrap();
    let (account, amount) = parse_pay_line(&cfg, &line).unwrap();
    assert_eq!(account, fb("assets:funds:fundingsocieties"));
    assert_eq!(amount, fb("1,234.56"));
}

#[test]
fn pay_line_round_trips_unsigned_amount() {
    let cfg = Config::standard();
    let line = pay(&cfg, &fb("expenses:service"), false, &fb("0.45"), &fb("Service Fee")).unwrap();
    let (account, amount) = parse_pay_line(&cfg, &line).unwrap();
    assert_eq!(account, fb("expenses:service"));
    assert_eq!(amount, fb("0.45"));
}

#[test]
fn error_labels() {
    assert_eq!(
        LedgerError::BoundaryNotFound.describe(),
        "table boundary marker not found",
    );
    assert_eq!(
        LedgerError::TrailingUnparsedText.describe(),
        "unparsed text after the last row",
    );
    assert_eq!(
        LedgerError::LineWidthExceeded.describe(),
        "posting does not fit the line width",
    );
}
