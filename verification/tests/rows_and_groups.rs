//! Row extraction (cursor, repair, validation) and transaction grouping.
use fsledger::grouping::group_rows;
use fsledger::model::{LedgerError, Row};
use fsledger::row::{extract_row, extract_rows, is_amount_vec, is_date_vec};

fn rb(s: &str) -> Vec<u8> {
    s.as_bytes().to_vec()
}

fn rlines(xs: &[&str]) -> Vec<Vec<u8>> {
    xs.iter().map(|s| s.as_bytes().to_vec()).collect()
}

fn key_row(date: &str, title: &str) -> Row {
    Row {
        date: rb(date),
        title: rb(title),
        comment: rb(""),
        debit: rb("(0.00)"),
        credit: rb("1.00"),
        balance: rb("10.00"),
    }
}

#[test]
fn amount_shapes() {
    assert!(is_amount_vec(&rb("0.00")));
    assert!(is_amount_vec(&rb("(0.00)")));
    assert!(is_amount_vec(&rb("1,000.00")));
    assert!(is_amount_vec(&rb("(12,345.67)")));
    assert!(!is_amount_vec(&rb("")));
    assert!(!is_amount_vec(&rb("0.0")));
    assert!(!is_amount_vec(&rb("a.00")));
    assert!(!is_amount_vec(&rb("Early Payment Fee")));
}

#[test]
fn date_shapes() {
    assert!(is_date_vec(&rb("2024-01-10")));
    assert!(!is_date_vec(&rb("2024-1-10")));
    assert!(!is_date_vec(&rb("20240110")));
    assert!(!is_date_vec(&rb("2024-01-1x")));
}

#[test]
fn extract_row_reads_five_lines() {
    let lines = rlines(&[
        "2024-01-10",
        "XXXX-00000000 (1 of 1 repayment) || Principal",
        "(0.00)",
        "100.00",
        "900.00",
    ]);
    let mut pos = 0usize;
    let row = extract_row(&lines, &mut pos).unwrap().unwrap();
    assert_eq!(pos, 5);
    assert_eq!(row.date, rb("2024-01-10"));
    assert_eq!(row.title, rb("XXXX-00000000 (1 of 1 repayment)"));
    assert_eq!(row.comment, rb("Principal"));
    assert_eq!(row.debit, rb("(0.00)"));
    assert_eq!(row.credit, rb("100.00"));
    assert_eq!(row.balance, rb("900.00"));
}

#[test]
fn extract_row_merges_wrapped_title() {
    let lines = rlines(&[
        "2024-01-10",
        "XXXX-00000000 (1 of 1 repayment) || Early Payment",
        "Fee",
        "(0.00)",
        "2.00",
        "900.00",
    ]);
    let mut pos = 0usize;
    let row = extract_row(&lines, &mut pos).unwrap().unwrap();
    assert_eq!(pos, 6);
    assert_eq!(row.title, rb("XXXX-00000000 (1 of 1 repayment)"));
    assert_eq!(row.comment, rb("Early Payment Fee"));
    assert_eq!(row.debit, rb("(0.00)"));
}

#[test]
fn extract_row_end_of_input() {
    let lines = rlines(&["", "   "]);
    let mut pos = 0usize;
    assert!(extract_row(&lines, &mut pos).unwrap().is_none());
    assert_eq!(pos, 2);
}

#[test]
fn extract_row_trailing_text_fails() {
    let lines = rlines(&["some leftover text"]);
    let mut pos = 0usize;
    let e = extract_row(&lines, &mut pos).unwrap_err();
    assert!(matches!(e, LedgerError::TrailingUnparsedText));
    assert_eq!(pos, 0);
}

#[test]
fn extract_rows_skips_blank_lines_between_rows() {
    let lines = rlines(&[
        "2024-01-10",
        "Deposit",
        "0.00",
        "250.00",
        "250.00",
        "",
        "2024-01-11",
        "Withdrawal",
        "80.00",
        "0.00",
        "170.00",
        "  ",
    ]);
    let rows = extract_rows(&lines).unwrap();
    assert_eq!(rows.len(), 2);
}

#[test]
fn extract_rows_reads_consecutive_rows() {
    let lines = rlines(&[
        "2024-01-10",
        "Deposit",
        "0.00",
        "250.00",
        "250.00",
        "2024-01-11",
        "Withdrawal",
        "80.00",
        "0.00",
        "170.00",
    ]);
    let rows = extract_rows(&lines).unwrap();
    assert_eq!(rows.len(), 2);
    assert_eq!(rows[0].title, rb("Deposit"));
    assert_eq!(rows[1].title, rb("Withdrawal"));
}

#[test]
fn extract_rows_partial_row_fails() {
    let lines = rlines(&["2024-01-10", "Deposit", "0.00"]);
    let e = extract_rows(&lines).unwrap_err();
    assert!(matches!(e, LedgerError::TrailingUnparsedText));
}

#[test]
fn grouping_merges_adjacent_rows_with_equal_key() {
    let rows = vec![
        key_row("2024-01-10", "A"),
        key_row("2024-01-10", "A"),
        key_row("2024-01-10", "B"),
    ];
    let gs = group_rows(&rows);
    assert_eq!(gs.len(), 2);
    assert_eq!(gs[0].title, rb("A"));
    assert_eq!(gs[0].rows.len(), 2);
    assert_eq!(gs[1].title, rb("B"));
    assert_eq!(gs[1].rows.len(), 1);
}

#[test]
fn grouping_never_merges_non_adjacent_rows() {
    let rows = vec![
        key_row("2024-01-10", "A"),
        key_row("2024-01-10", "B"),
        key_row("2024-01-10", "A"),
    ];
    let gs = group_rows(&rows);
    assert_eq!(gs.len(), 3);
    assert_eq!(gs[0].rows.len(), 1);
    assert_eq!(gs[1].rows.len(), 1);
    assert_eq!(gs[2].rows.len(), 1);
}

#[test]
fn grouping_splits_on_date_change() {
    let rows = vec![key_row("2024-01-10", "A"), key_row("2024-01-11", "A")];
    let gs = group_rows(&rows);
    assert_eq!(gs.len(), 2);
}

#[test]
fn grouping_keeps_row_order() {
    let mut first = key_row("2024-01-10", "A");
    first.comment = rb("Principal");
    let mut second = key_row("2024-01-10", "A");
    second.comment = rb("Interest");
    let gs = group_rows(&vec![first, second]);
    assert_eq!(gs.len(), 1);
    assert_eq!(gs[0].rows[0].comment, rb("Principal"));
    assert_eq!(gs[0].rows[1].comment, rb("Interest"));
}
