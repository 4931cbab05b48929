//! Posting generator: derives `(account, sign, amount, comment)` for each
//! row of a transaction group, or fails loudly on combinations it refuses to
//! guess about.
use crate::classify::{invested_comment, is_adjustment, is_deposit, is_invested, is_withdrawal};
use crate::config::{Config, ConfigV};
use crate::model::{LedgerError, LedgerErrorV, Posting, PostingV, Row, RowV};
use crate::row::is_zero_amount;
use crate::text::{contains_vec, copy_bytes, seq_eq, starts_with, strip_parens, strip_parens_vec};
use crate::tokens::{
    adjustment_label, comment_early_payment_fee, comment_interest, comment_late_interest_fee,
    comment_late_returns_fee, comment_principal, comment_returns, comment_service_fee, lit,
};
use vstd::prelude::*;

verus! {

/// The account a row comment maps to in the generic per-row rule: fees paid
/// to expense, earnings to income, principal to the funds holding; `None`
/// for a comment outside the table.
pub open spec fn account_for_comment(cfg: ConfigV, c: Seq<u8>) -> Option<Seq<u8>> {
    if c == comment_service_fee() {
        Some(cfg.expense)
    } else if c == comment_interest() || c == comment_late_interest_fee() || c
        == comment_early_payment_fee() || c == comment_returns() || c == comment_late_returns_fee() {
        Some(cfg.income)
    } else if c == comment_principal() {
        Some(cfg.funds)
    } else {
        None
    }
}

/// The posting of one row in a group with the given title, or the error the
/// row is refused with. The first four rules go by the title shape; the
/// last dispatches on the row's own comment, its sign negative exactly when
/// the credit side carries the amount.
#[verifier::opaque]
pub open spec fn spec_posting(cfg: ConfigV, title: Seq<u8>, row: RowV) -> Result<
    PostingV,
    LedgerErrorV,
> {
    if is_invested(title) && is_zero_amount(row.credit) {
        Ok(
            PostingV {
                account: cfg.funds,
                negative: false,
                amount: strip_parens(row.debit),
                comment: invested_comment(title),
            },
        )
    } else if is_deposit(title) {
        Ok(
            PostingV {
                account: cfg.bank,
                negative: true,
                amount: strip_parens(row.credit),
                comment: title,
            },
        )
    } else if is_withdrawal(title) {
        Ok(
            PostingV {
                account: cfg.bank,
                negative: false,
                amount: strip_parens(row.debit),
                comment: title,
            },
        )
    } else if is_adjustment(title) {
        if !is_zero_amount(row.debit) {
            Err(LedgerErrorV::UnsupportedAdjustment(row))
        } else {
            Ok(
                PostingV {
                    account: cfg.funds,
                    negative: true,
                    amount: strip_parens(row.credit),
                    comment: adjustment_label(),
                },
            )
        }
    } else {
        match account_for_comment(cfg, row.comment) {
            None => Err(LedgerErrorV::UnrecognizedPosting(row)),
            Some(account) => if is_zero_amount(row.credit) {
                Ok(
                    PostingV {
                        account: account,
                        negative: false,
                        amount: strip_parens(row.debit),
                        comment: row.comment,
                    },
                )
            } else if is_zero_amount(row.debit) {
                Ok(
                    PostingV {
                        account: account,
                        negative: true,
                        amount: strip_parens(row.credit),
                        comment: row.comment,
                    },
                )
            } else {
                Err(LedgerErrorV::UnrecognizedPosting(row))
            },
        }
    }
}

fn account_for_comment_vec(cfg: &Config, c: &Vec<u8>) -> (r: Option<Vec<u8>>)
    ensures
        match account_for_comment(cfg@, c@) {
            Some(a) => r matches Some(v) && v@ == a,
            None => r is None,
        },
{
    if seq_eq(c, &lit("Service Fee")) {
        Some(copy_bytes(&cfg.expense))
    } else if seq_eq(c, &lit("Interest")) || seq_eq(c, &lit("Late Interest Fee")) || seq_eq(
        c,
        &lit("Early Payment Fee"),
    ) || seq_eq(c, &lit("Returns")) || seq_eq(c, &lit("Late Returns Fee")) {
        Some(copy_bytes(&cfg.income))
    } else if seq_eq(c, &lit("Principal")) {
        Some(copy_bytes(&cfg.funds))
    } else {
        None
    }
}

/// The posting of one row under the group's title, or the error that
/// refuses it: `UnsupportedAdjustment` for an adjustment row whose debit is
/// not zero, `UnrecognizedPosting` for an unknown comment or for amounts on
/// both sides.
pub fn posting_for_row(cfg: &Config, title: &Vec<u8>, row: &Row) -> (r: Result<
    Posting,
    LedgerError,
>)
    ensures
        match spec_posting(cfg@, title@, row@) {
            Ok(p) => r matches Ok(got) && got@ == p,
            Err(e) => r matches Err(got) && got@ == e,
        },
{
    proof {
        reveal(spec_posting);
    }
    let invested = lit("invested");
    if contains_vec(title, &invested) && crate::row::is_zero_amount_vec(&row.credit) {
        let comment = crate::classify::invested_comment_vec(title);
        return Ok(
            Posting {
                account: copy_bytes(&cfg.funds),
                negative: false,
                amount: strip_parens_vec(&row.debit),
                comment,
            },
        );
    }
    if seq_eq(title, &lit("Deposit")) {
        return Ok(
            Posting {
                account: copy_bytes(&cfg.bank),
                negative: true,
                amount: strip_parens_vec(&row.credit),
                comment: copy_bytes(title),
            },
        );
    }
    if starts_with(title, &lit("Withdrawal")) {
        return Ok(
            Posting {
                account: copy_bytes(&cfg.bank),
                negative: false,
                amount: strip_parens_vec(&row.debit),
                comment: copy_bytes(title),
            },
        );
    }
    if starts_with(title, &lit("Adjustment for investment to ")) {
        if !crate::row::is_zero_amount_vec(&row.debit) {
            return Err(LedgerError::UnsupportedAdjustment(crate::model::row_copy(row)));
        }
        return Ok(
            Posting {
                account: copy_bytes(&cfg.funds),
                negative: true,
                amount: strip_parens_vec(&row.credit),
                comment: lit("Adjustment"),
            },
        );
    }
    match account_for_comment_vec(cfg, &row.comment) {
        None => Err(LedgerError::UnrecognizedPosting(crate::model::row_copy(row))),
        Some(account) => {
            if crate::row::is_zero_amount_vec(&row.credit) {
                Ok(
                    Posting {
                        account,
                        negative: false,
                        amount: strip_parens_vec(&row.debit),
                        comment: copy_bytes(&row.comment),
                    },
                )
            } else if crate::row::is_zero_amount_vec(&row.debit) {
                Ok(
                    Posting {
                        account,
                        negative: true,
                        amount: strip_parens_vec(&row.credit),
                        comment: copy_bytes(&row.comment),
                    },
                )
            } else {
                Err(LedgerError::UnrecognizedPosting(crate::model::row_copy(row)))
            }
        },
    }
}

/// For a well-formed single-posting row — one side exactly zero, the row's
/// comment inside the lookup table, and a title that no special shape rule
/// claims — the emitted posting's sign is negative exactly when the debit
/// side is the zero one (the amount sits on the credit side), and positive
/// in the reverse case; the amount is always the non-zero side, stripped of
/// its parentheses.
pub proof fn lemma_posting_sign(cfg: ConfigV, title: Seq<u8>, row: RowV)
    requires
        !is_invested(title),
        !is_deposit(title),
        !is_withdrawal(title),
        !is_adjustment(title),
        account_for_comment(cfg, row.comment) is Some,
        is_zero_amount(row.debit) != is_zero_amount(row.credit),
    ensures
        spec_posting(cfg, title, row) matches Ok(p) && p.negative == is_zero_amount(row.debit)
            && p.amount == (if p.negative {
            strip_parens(row.credit)
        } else {
            strip_parens(row.debit)
        }),
{
    reveal(spec_posting);
}

} // verus!
