//! The data carried through the pipeline: extracted rows, transaction
//! groups, generated postings, and the error taxonomy.
use crate::text::copy_bytes;
use vstd::prelude::*;

verus! {

/// One physical row of the transaction table. Amounts are decimal-formatted
/// byte strings, kept verbatim (a parenthesized amount marks the offsetting
/// side); arithmetic is never performed on them.
#[derive(Debug)]
pub struct Row {
    /// `YYYY-MM-DD`.
    pub date: Vec<u8>,
    /// Title text, without the embedded comment.
    pub title: Vec<u8>,
    /// The part after ` || ` in the title line; empty when absent.
    pub comment: Vec<u8>,
    pub debit: Vec<u8>,
    pub credit: Vec<u8>,
    pub balance: Vec<u8>,
}

#[verifier::ext_equal]
pub struct RowV {
    pub date: Seq<u8>,
    pub title: Seq<u8>,
    pub comment: Seq<u8>,
    pub debit: Seq<u8>,
    pub credit: Seq<u8>,
    pub balance: Seq<u8>,
}

impl View for Row {
    type V = RowV;

    open spec fn view(&self) -> RowV {
        RowV {
            date: self.date@,
            title: self.title@,
            comment: self.comment@,
            debit: self.debit@,
            credit: self.credit@,
            balance: self.balance@,
        }
    }
}

pub fn row_copy(r: &Row) -> (c: Row)
    ensures
        c@ == r@,
{
    Row {
        date: copy_bytes(&r.date),
        title: copy_bytes(&r.title),
        comment: copy_bytes(&r.comment),
        debit: copy_bytes(&r.debit),
        credit: copy_bytes(&r.credit),
        balance: copy_bytes(&r.balance),
    }
}

pub open spec fn view_rows(rows: Seq<Row>) -> Seq<RowV> {
    rows.map_values(|r: Row| r@)
}

/// Consecutive rows sharing `(date, title)` byte-for-byte, in original
/// order: one logical transaction.
#[derive(Debug)]
pub struct TransactionGroup {
    pub date: Vec<u8>,
    pub title: Vec<u8>,
    pub rows: Vec<Row>,
}

#[verifier::ext_equal]
pub struct GroupV {
    pub date: Seq<u8>,
    pub title: Seq<u8>,
    pub rows: Seq<RowV>,
}

impl View for TransactionGroup {
    type V = GroupV;

    open spec fn view(&self) -> GroupV {
        GroupV { date: self.date@, title: self.title@, rows: view_rows(self.rows@) }
    }
}

pub open spec fn view_groups(gs: Seq<TransactionGroup>) -> Seq<GroupV> {
    gs.map_values(|g: TransactionGroup| g@)
}

/// One ledger posting: an account, a polarity, an amount kept as the decimal
/// string of the row it came from, and a trailing comment.
#[derive(Debug)]
pub struct Posting {
    pub account: Vec<u8>,
    /// True when the amount is emitted with a `-` sign.
    pub negative: bool,
    pub amount: Vec<u8>,
    pub comment: Vec<u8>,
}

#[verifier::ext_equal]
pub struct PostingV {
    pub account: Seq<u8>,
    pub negative: bool,
    pub amount: Seq<u8>,
    pub comment: Seq<u8>,
}

impl View for Posting {
    type V = PostingV;

    open spec fn view(&self) -> PostingV {
        PostingV {
            account: self.account@,
            negative: self.negative,
            amount: self.amount@,
            comment: self.comment@,
        }
    }
}

/// Every fatal condition of the pipeline. None is recovered from: a wrong
/// guess in financial categorization is worse than a loud failure.
#[derive(Debug)]
pub enum LedgerError {
    /// The start or the end marker of the transaction table is missing, or
    /// the end marker precedes the start marker.
    BoundaryNotFound,
    /// Non-whitespace text remains in the table region after the last row
    /// that matched the fixed row shape.
    TrailingUnparsedText,
    /// A row whose comment and amounts fit no classification rule, carried
    /// for diagnostics.
    UnrecognizedPosting(Row),
    /// An adjustment row whose debit side is not zero, carried for
    /// diagnostics.
    UnsupportedAdjustment(Row),
    /// Configuration error: an account, sign and amount together leave no
    /// room inside the configured line width.
    LineWidthExceeded,
}

#[verifier::ext_equal]
pub enum LedgerErrorV {
    BoundaryNotFound,
    TrailingUnparsedText,
    UnrecognizedPosting(RowV),
    UnsupportedAdjustment(RowV),
    LineWidthExceeded,
}

impl View for LedgerError {
    type V = LedgerErrorV;

    open spec fn view(&self) -> LedgerErrorV {
        match self {
            LedgerError::BoundaryNotFound => LedgerErrorV::BoundaryNotFound,
            LedgerError::TrailingUnparsedText => LedgerErrorV::TrailingUnparsedText,
            LedgerError::UnrecognizedPosting(r) => LedgerErrorV::UnrecognizedPosting(r@),
            LedgerError::UnsupportedAdjustment(r) => LedgerErrorV::UnsupportedAdjustment(r@),
            LedgerError::LineWidthExceeded => LedgerErrorV::LineWidthExceeded,
        }
    }
}

impl LedgerError {
    /// A short diagnostic label for the error, for callers that report it.
    pub fn describe(&self) -> (r: &'static str)
        ensures
            r@ == match self@ {
                LedgerErrorV::BoundaryNotFound => "table boundary marker not found"@,
                LedgerErrorV::TrailingUnparsedText => "unparsed text after the last row"@,
                LedgerErrorV::UnrecognizedPosting(_) => "row fits no posting rule"@,
                LedgerErrorV::UnsupportedAdjustment(_) => "adjustment row with a non-zero debit"@,
                LedgerErrorV::LineWidthExceeded => "posting does not fit the line width"@,
            },
    {
        match self {
            LedgerError::BoundaryNotFound => "table boundary marker not found",
            LedgerError::TrailingUnparsedText => "unparsed text after the last row",
            LedgerError::UnrecognizedPosting(_) => "row fits no posting rule",
            LedgerError::UnsupportedAdjustment(_) => "adjustment row with a non-zero debit",
            LedgerError::LineWidthExceeded => "posting does not fit the line width",
        }
    }
}

} // verus!
