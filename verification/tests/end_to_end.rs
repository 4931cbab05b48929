//! Whole-pipeline scenarios: boundaries, repayment and deposit rows, and
//! multi-row transactions.
use fsledger::config::Config;
use fsledger::model::LedgerError;
use fsledger::pipeline::process;

fn elines(xs: &[&str]) -> Vec<Vec<u8>> {
    xs.iter().map(|s| s.as_bytes().to_vec()).collect()
}

fn run(xs: &[&str]) -> Result<String, LedgerError> {
    let cfg = Config::standard();
    process(&cfg, &elines(xs)).map(|v| String::from_utf8(v).unwrap())
}

#[test]
fn missing_start_marker_is_boundary_not_found() {
    let e = run(&["some header", "Important!"]).unwrap_err();
    assert!(matches!(e, LedgerError::BoundaryNotFound));
}

#[test]
fn missing_end_marker_is_boundary_not_found() {
    let e = run(&["Balance", "(RM)", "2024-01-10"]).unwrap_err();
    assert!(matches!(e, LedgerError::BoundaryNotFound));
}

#[test]
fn end_marker_before_start_is_boundary_not_found() {
    let e = run(&["Important!", "Balance", "(RM)"]).unwrap_err();
    assert!(matches!(e, LedgerError::BoundaryNotFound));
}

#[test]
fn empty_table_yields_empty_output() {
    let out = run(&["header", "Balance", "(RM)", "Important!", "footer"]).unwrap();
    assert_eq!(out, "");
}

#[test]
fn single_line_start_marker_variant() {
    let out = run(&["header", "Balance (RM)", "Important!"]).unwrap();
    assert_eq!(out, "");
}

#[test]
fn repayment_row_scenario() {
    let out = run(&[
        "Balance",
        "(RM)",
        "2024-01-10",
        "XXXX-00000000 (1 of 1 repayment) || Principal",
        "(0.00)",
        "100.00",
        "900.00",
        "Important!",
    ])
    .unwrap();
    let expected = format!(
        "2024-01-10 * XXXX-00000000  ; 1 of 1 repayment\n\
         \tassets:fundingsocieties{} = 900.00 MYR\n\
         \tassets:funds:fundingsocieties{} -100.00 MYR  ; Principal\n\n",
        " ".repeat(35),
        " ".repeat(17),
    );
    assert_eq!(out, expected);
}

#[test]
fn deposit_row_scenario() {
    let out = run(&[
        "Balance",
        "(RM)",
        "2024-01-11",
        "Deposit",
        "0.00",
        "250.00",
        "1,150.00",
        "Important!",
    ])
    .unwrap();
    let expected = format!(
        "2024-01-11 * Funding Societies  ; Deposit\n\
         \tassets:fundingsocieties{} = 1,150.00 MYR\n\
         \tassets:bank:pbe{} -250.00 MYR  ; Deposit\n\n",
        " ".repeat(35),
        " ".repeat(31),
    );
    assert_eq!(out, expected);
}

#[test]
fn repayment_group_merges_rows_into_one_transaction() {
    let out = run(&[
        "Balance",
        "(RM)",
        "2024-01-10",
        "XXXX-00000000 (1 of 1 repayment) || Principal",
        "(0.00)",
        "100.00",
        "900.00",
        "2024-01-10",
        "XXXX-00000000 (1 of 1 repayment) || Interest",
        "(0.00)",
        "1.50",
        "901.50",
        "Important!",
    ])
    .unwrap();
    // one header, one balance line, two postings, one blank line
    assert_eq!(out.matches(" * ").count(), 1);
    assert_eq!(out.matches(" = ").count(), 1);
    assert_eq!(out.matches("  ; Principal").count(), 1);
    assert_eq!(out.matches("  ; Interest").count(), 1);
    assert_eq!(out.matches('\n').count(), 5);
}

#[test]
fn invested_row_scenario() {
    let out = run(&[
        "Balance",
        "(RM)",
        "2024-01-12",
        "Auto Investment: invested 100 into XXXX-00000000",
        "100.00",
        "0.00",
        "800.00",
        "Important!",
    ])
    .unwrap();
    let expected = format!(
        "2024-01-12 * XXXX-00000000  ; Auto Investment\n\
         \tassets:fundingsocieties{} = 800.00 MYR\n\
         \tassets:funds:fundingsocieties{} 100.00 MYR  ; Auto Investment\n\n",
        " ".repeat(35),
        " ".repeat(18),
    );
    assert_eq!(out, expected);
}

#[test]
fn unrecognized_posting_fails_loudly() {
    let e = run(&[
        "Balance",
        "(RM)",
        "2024-01-10",
        "Something || Mystery Fee",
        "(0.00)",
        "7.00",
        "900.00",
        "Important!",
    ])
    .unwrap_err();
    match e {
        LedgerError::UnrecognizedPosting(row) => {
            assert_eq!(row.comment, b"Mystery Fee".to_vec());
        },
        other => panic!("expected UnrecognizedPosting, got {}", other.describe()),
    }
}

#[test]
fn unsupported_adjustment_fails_loudly() {
    let e = run(&[
        "Balance",
        "(RM)",
        "2024-01-10",
        "Adjustment for investment to XXXX",
        "5.00",
        "0.00",
        "900.00",
        "Important!",
    ])
    .unwrap_err();
    assert!(matches!(e, LedgerError::UnsupportedAdjustment(_)));
}

#[test]
fn trailing_text_fails_loudly() {
    let e = run(&["Balance", "(RM)", "2024-01-10", "orphan", "Important!"]).unwrap_err();
    assert!(matches!(e, LedgerError::TrailingUnparsedText));
}

#[test]
fn wrapped_title_row_end_to_end() {
    let out = run(&[
        "Balance",
        "(RM)",
        "2024-01-13",
        "XXXX-00000000 (2 of 3 repayment) || Early Payment",
        "Fee",
        "(0.00)",
        "2.00",
        "903.50",
        "Important!",
    ])
    .unwrap();
    assert!(out.starts_with("2024-01-13 * XXXX-00000000  ; 2 of 3 repayment\n"));
    assert!(out.contains("income:interest"));
    assert!(out.contains(" -2.00 MYR  ; Early Payment Fee\n"));
}
