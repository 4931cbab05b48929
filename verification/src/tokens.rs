//! The literal byte strings of the statement layout and of the ledger
//! rendering, as spec-level sequences, and an executable constructor for
//! literal byte vectors.
use vstd::prelude::*;
use vstd::string::StrSliceExecFns;
use vstd::string::StringSliceAdditionalSpecFns;

verus! {

/// Bytes of a string literal, for executable code; `lit("x")@` equals
/// `"x".spec_bytes()`.
pub fn lit(s: &str) -> (r: Vec<u8>)
    ensures
        r@ == s.spec_bytes(),
{
    s.as_bytes_vec()
}

/// Start marker, first layout variant: `Balance` alone on a line, the
/// commodity-in-parens on the next.
pub open spec fn marker_balance() -> Seq<u8> {
    "Balance".spec_bytes()
}

pub open spec fn marker_commodity() -> Seq<u8> {
    "(RM)".spec_bytes()
}

/// Start marker, second layout variant: both tokens on one line.
pub open spec fn marker_balance_one_line() -> Seq<u8> {
    "Balance (RM)".spec_bytes()
}

/// End marker of the transaction table.
pub open spec fn marker_end() -> Seq<u8> {
    "Important!".spec_bytes()
}

/// Separator between a title and its embedded comment.
pub open spec fn comment_sep() -> Seq<u8> {
    " || ".spec_bytes()
}

pub open spec fn one_space() -> Seq<u8> {
    " ".spec_bytes()
}

/// Narration used for deposits and withdrawals: the institution's name.
pub open spec fn institution_label() -> Seq<u8> {
    "Funding Societies".spec_bytes()
}

pub open spec fn title_deposit() -> Seq<u8> {
    "Deposit".spec_bytes()
}

pub open spec fn title_withdrawal() -> Seq<u8> {
    "Withdrawal".spec_bytes()
}

pub open spec fn title_invested() -> Seq<u8> {
    "invested".spec_bytes()
}

pub open spec fn title_into() -> Seq<u8> {
    "into ".spec_bytes()
}

pub open spec fn title_colon() -> Seq<u8> {
    ": ".spec_bytes()
}

pub open spec fn title_repayment_end() -> Seq<u8> {
    "repayment)".spec_bytes()
}

pub open spec fn title_revert() -> Seq<u8> {
    "Revert ".spec_bytes()
}

pub open spec fn title_adjustment_prefix() -> Seq<u8> {
    "Adjustment for investment to ".spec_bytes()
}

pub open spec fn adjustment_label() -> Seq<u8> {
    "Adjustment".spec_bytes()
}

pub open spec fn zero_amount() -> Seq<u8> {
    "0.00".spec_bytes()
}

pub open spec fn comment_service_fee() -> Seq<u8> {
    "Service Fee".spec_bytes()
}

pub open spec fn comment_interest() -> Seq<u8> {
    "Interest".spec_bytes()
}

pub open spec fn comment_late_interest_fee() -> Seq<u8> {
    "Late Interest Fee".spec_bytes()
}

pub open spec fn comment_early_payment_fee() -> Seq<u8> {
    "Early Payment Fee".spec_bytes()
}

pub open spec fn comment_returns() -> Seq<u8> {
    "Returns".spec_bytes()
}

pub open spec fn comment_late_returns_fee() -> Seq<u8> {
    "Late Returns Fee".spec_bytes()
}

pub open spec fn comment_principal() -> Seq<u8> {
    "Principal".spec_bytes()
}

/// ` * ` between the date and the narration of a header line.
pub open spec fn header_sep() -> Seq<u8> {
    " * ".spec_bytes()
}

/// `  ; ` before a trailing comment.
pub open spec fn trailing_comment_sep() -> Seq<u8> {
    "  ; ".spec_bytes()
}

/// ` = ` before the running balance of the asset line.
pub open spec fn balance_eq_sep() -> Seq<u8> {
    " = ".spec_bytes()
}

pub open spec fn newline() -> Seq<u8> {
    "\n".spec_bytes()
}

pub open spec fn tab() -> Seq<u8> {
    "\t".spec_bytes()
}

pub open spec fn minus_sign() -> Seq<u8> {
    "-".spec_bytes()
}

} // verus!
