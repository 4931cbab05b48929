//! Row extraction: the fixed row shape of the transaction table, and the
//! cursor-driven extractor that repairs the one known line-wrapping artifact
//! (a title continued on the following line) before matching it.
use crate::model::{LedgerError, Row, RowV};
use crate::text::{
    copy_bytes, find_first, is_blank, is_blank_line, is_digit, strip_parens, strip_parens_vec,
    subvec,
};
use crate::tokens::{comment_sep, lit, one_space, zero_amount};
use vstd::prelude::*;

verus! {

/// `YYYY-MM-DD`: ten bytes, digits with dashes at positions four and seven.
pub open spec fn is_date(s: Seq<u8>) -> bool {
    &&& s.len() == 10
    &&& is_digit(s[0])
    &&& is_digit(s[1])
    &&& is_digit(s[2])
    &&& is_digit(s[3])
    &&& s[4] == 45
    &&& is_digit(s[5])
    &&& is_digit(s[6])
    &&& s[7] == 45
    &&& is_digit(s[8])
    &&& is_digit(s[9])
}

/// A decimal amount: a digit, then digits or thousands separators, then a
/// dot and exactly two fractional digits.
pub open spec fn is_plain_amount(s: Seq<u8>) -> bool {
    &&& s.len() >= 4
    &&& is_digit(s[0])
    &&& s[s.len() - 3] == 46
    &&& is_digit(s[s.len() - 2])
    &&& is_digit(s[s.len() - 1])
    &&& forall|i: int| 1 <= i < s.len() - 3 ==> (is_digit(#[trigger] s[i]) || s[i] == 44)
}

/// An amount as it appears in a row: possibly wrapped in parentheses to mark
/// the offsetting side.
pub open spec fn is_amount(s: Seq<u8>) -> bool {
    is_plain_amount(strip_parens(s))
}

/// The amount is zero once parentheses are stripped.
pub open spec fn is_zero_amount(s: Seq<u8>) -> bool {
    strip_parens(s) == zero_amount()
}

fn digit_b(b: u8) -> (r: bool)
    ensures
        r == is_digit(b),
{
    48 <= b && b <= 57
}

pub fn is_date_vec(s: &Vec<u8>) -> (r: bool)
    ensures
        r == is_date(s@),
{
    if s.len() != 10 {
        return false;
    }
    digit_b(s[0]) && digit_b(s[1]) && digit_b(s[2]) && digit_b(s[3]) && s[4] == 45 && digit_b(s[5])
        && digit_b(s[6]) && s[7] == 45 && digit_b(s[8]) && digit_b(s[9])
}

pub fn is_plain_amount_vec(s: &Vec<u8>) -> (r: bool)
    ensures
        r == is_plain_amount(s@),
{
    let n: usize = s.len();
    if n < 4 {
        return false;
    }
    if !(48 <= s[0] && s[0] <= 57) {
        return false;
    }
    if s[n - 3] != 46 {
        return false;
    }
    if !(48 <= s[n - 2] && s[n - 2] <= 57) {
        return false;
    }
    if !(48 <= s[n - 1] && s[n - 1] <= 57) {
        return false;
    }
    let mut i: usize = 1;
    while i < n - 3
        invariant
            n == s@.len(),
            4 <= n,
            1 <= i <= n - 3,
            forall|k: int| 1 <= k < i ==> (is_digit(#[trigger] s@[k]) || s@[k] == 44),
        decreases n - 3 - i,
    {
        let b = s[i];
        if !((48 <= b && b <= 57) || b == 44) {
            return false;
        }
        i = i + 1;
    }
    true
}

pub fn is_amount_vec(s: &Vec<u8>) -> (r: bool)
    ensures
        r == is_amount(s@),
{
    let t = strip_parens_vec(s);
    is_plain_amount_vec(&t)
}

pub fn is_zero_amount_vec(s: &Vec<u8>) -> (r: bool)
    ensures
        r == is_zero_amount(s@),
{
    let t = strip_parens_vec(s);
    let z = lit("0.00");
    crate::text::seq_eq(&t, &z)
}

/// A title line split at the first ` || ` into the title proper and the
/// embedded comment; without the separator the comment is empty.
pub open spec fn split_title(t: Seq<u8>) -> (Seq<u8>, Seq<u8>) {
    match find_first(t, comment_sep()) {
        Some(i) => (t.subrange(0, i), t.subrange(i + comment_sep().len(), t.len() as int)),
        None => (t, Seq::empty()),
    }
}

pub fn split_title_vec(t: &Vec<u8>) -> (r: (Vec<u8>, Vec<u8>))
    ensures
        (r.0@, r.1@) == split_title(t@),
{
    let sep = lit(" || ");
    if sep.len() == 0 {
        return (copy_bytes(t), Vec::new());
    }
    match crate::text::find_first_vec(t, &sep) {
        Some(i) => {
            proof {
                crate::text::lemma_find_first_from(t@, sep@, 0);
            }
            let tn = t.len();
            let sn = sep.len();
            assert(i + sn <= tn);
            let head = subvec(t, 0, i);
            let tail = subvec(t, i + sn, tn);
            (head, tail)
        },
        None => (copy_bytes(t), Vec::new()),
    }
}

/// What the extractor finds at a cursor position: clean end of input, text
/// that matches no row shape, or one row and the position after it.
pub enum ExtractOutcome {
    End,
    Bad,
    Found { row: RowV, next: int },
}

/// The last three fields of a row once the date, the (possibly repaired)
/// title line and the debit are fixed: credit at `k`, balance at `k + 1`.
pub open spec fn finish_row(
    lines: Seq<Seq<u8>>,
    date: Seq<u8>,
    title_line: Seq<u8>,
    debit: Seq<u8>,
    k: int,
) -> ExtractOutcome {
    if k + 2 > lines.len() {
        ExtractOutcome::Bad
    } else if !is_amount(lines[k]) || !is_amount(lines[k + 1]) {
        ExtractOutcome::Bad
    } else {
        let (title, comment) = split_title(title_line);
        ExtractOutcome::Found {
            row: RowV {
                date: date,
                title: title,
                comment: comment,
                debit: debit,
                credit: lines[k],
                balance: lines[k + 1],
            },
            next: k + 2,
        }
    }
}

/// One step of extraction at cursor `pos`: skips whitespace-only lines, then
/// matches the fixed shape `date, title [continuation], debit, credit,
/// balance`, merging a wrapped title line back when the line after the title
/// does not look like an amount.
pub open spec fn spec_extract_row(lines: Seq<Seq<u8>>, pos: int) -> ExtractOutcome
    decreases lines.len() - pos,
{
    if pos < 0 {
        ExtractOutcome::Bad
    } else if pos >= lines.len() {
        ExtractOutcome::End
    } else if is_blank(lines[pos]) {
        spec_extract_row(lines, pos + 1)
    } else if !is_date(lines[pos]) {
        ExtractOutcome::Bad
    } else if pos + 3 > lines.len() {
        ExtractOutcome::Bad
    } else if is_amount(lines[pos + 2]) {
        finish_row(lines, lines[pos], lines[pos + 1], lines[pos + 2], pos + 3)
    } else if pos + 4 > lines.len() {
        ExtractOutcome::Bad
    } else if !is_amount(lines[pos + 3]) {
        ExtractOutcome::Bad
    } else {
        finish_row(
            lines,
            lines[pos],
            lines[pos + 1] + one_space() + lines[pos + 2],
            lines[pos + 3],
            pos + 4,
        )
    }
}

/// A found row sits strictly ahead of the cursor and within the input.
pub proof fn lemma_extract_bounds(lines: Seq<Seq<u8>>, pos: int)
    ensures
        match spec_extract_row(lines, pos) {
            ExtractOutcome::Found { row, next } => pos < next <= lines.len(),
            _ => true,
        },
    decreases lines.len() - pos,
{
    if 0 <= pos < lines.len() && is_blank(lines[pos]) {
        lemma_extract_bounds(lines, pos + 1);
    }
}

pub open spec fn view_lines(lines: Seq<Vec<u8>>) -> Seq<Seq<u8>> {
    lines.map_values(|v: Vec<u8>| v@)
}

/// Extracts the row at the cursor, advancing the cursor past it. Returns
/// `Ok(None)` when only whitespace remains, and fails with
/// `TrailingUnparsedText` when remaining text matches no row shape; the
/// cursor is unchanged on failure.
pub fn extract_row(lines: &Vec<Vec<u8>>, pos: &mut usize) -> (r: Result<Option<Row>, LedgerError>)
    requires
        *old(pos) <= lines@.len(),
    ensures
        match spec_extract_row(view_lines(lines@), *old(pos) as int) {
            ExtractOutcome::End => r matches Ok(o) && o is None && *final(pos) == lines@.len(),
            ExtractOutcome::Bad => r matches Err(e) && e@
                == crate::model::LedgerErrorV::TrailingUnparsedText && *final(pos) == *old(pos),
            ExtractOutcome::Found { row, next } => r matches Ok(o) && o matches Some(got) && got@
                == row && *final(pos) == next,
        },
{
    let ghost vl = view_lines(lines@);
    let n: usize = lines.len();
    let mut i: usize = *pos;
    while i < n && is_blank_line(&lines[i])
        invariant
            n == lines@.len(),
            i <= n,
            vl == view_lines(lines@),
            spec_extract_row(vl, *old(pos) as int) == spec_extract_row(vl, i as int),
        decreases n - i,
    {
        i = i + 1;
    }
    if i == n {
        *pos = n;
        return Ok(None);
    }
    // lines[i] is not blank
    if !is_date_vec(&lines[i]) {
        return Err(LedgerError::TrailingUnparsedText);
    }
    if n - i < 3 {
        return Err(LedgerError::TrailingUnparsedText);
    }
    let (title_line, debit, k): (Vec<u8>, Vec<u8>, usize) = if is_amount_vec(&lines[i + 2]) {
        (copy_bytes(&lines[i + 1]), copy_bytes(&lines[i + 2]), i + 3)
    } else {
        if n - i < 4 {
            return Err(LedgerError::TrailingUnparsedText);
        }
        if !is_amount_vec(&lines[i + 3]) {
            return Err(LedgerError::TrailingUnparsedText);
        }
        let mut t = copy_bytes(&lines[i + 1]);
        let sp = lit(" ");
        crate::text::append_bytes(&mut t, &sp);
        crate::text::append_bytes(&mut t, &lines[i + 2]);
        (t, copy_bytes(&lines[i + 3]), i + 4)
    };
    if n - k < 2 {
        return Err(LedgerError::TrailingUnparsedText);
    }
    if !is_amount_vec(&lines[k]) {
        return Err(LedgerError::TrailingUnparsedText);
    }
    if !is_amount_vec(&lines[k + 1]) {
        return Err(LedgerError::TrailingUnparsedText);
    }
    let (title, comment) = split_title_vec(&title_line);
    let row = Row {
        date: copy_bytes(&lines[i]),
        title,
        comment,
        debit,
        credit: copy_bytes(&lines[k]),
        balance: copy_bytes(&lines[k + 1]),
    };
    *pos = k + 2;
    proof {
        assert(spec_extract_row(vl, *old(pos) as int) == finish_row(
            vl,
            vl[i as int],
            title_line@,
            debit@,
            k as int,
        ));
    }
    Ok(Some(row))
}

/// Every row of the table region from `pos` on, or `None` when remaining
/// text matches no row shape.
pub open spec fn spec_rows_from(lines: Seq<Seq<u8>>, pos: int) -> Option<Seq<RowV>>
    decreases lines.len() - pos,
    via spec_rows_from_decreases
{
    match spec_extract_row(lines, pos) {
        ExtractOutcome::End => Some(Seq::empty()),
        ExtractOutcome::Bad => None,
        ExtractOutcome::Found { row, next } => match spec_rows_from(lines, next) {
            Some(rest) => Some(seq![row] + rest),
            None => None,
        },
    }
}

#[via_fn]
proof fn spec_rows_from_decreases(lines: Seq<Seq<u8>>, pos: int) {
    lemma_extract_bounds(lines, pos);
}

/// All rows of the table region, in order. Fails with
/// `TrailingUnparsedText` exactly when some non-whitespace text matches no
/// row shape.
pub fn extract_rows(lines: &Vec<Vec<u8>>) -> (r: Result<Vec<Row>, LedgerError>)
    ensures
        match spec_rows_from(view_lines(lines@), 0) {
            Some(rows) => r matches Ok(v) && crate::model::view_rows(v@) == rows,
            None => r matches Err(e) && e@ == crate::model::LedgerErrorV::TrailingUnparsedText,
        },
{
    let ghost vl = view_lines(lines@);
    let mut acc: Vec<Row> = Vec::new();
    let mut pos: usize = 0;
    loop
        invariant
            vl == view_lines(lines@),
            pos <= lines@.len(),
            match spec_rows_from(vl, pos as int) {
                Some(rest) => spec_rows_from(vl, 0) == Some(
                    crate::model::view_rows(acc@) + rest,
                ),
                None => spec_rows_from(vl, 0) is None,
            },
        decreases lines@.len() - pos,
    {
        let ghost pos0 = pos as int;
        proof {
            lemma_extract_bounds(vl, pos0);
        }
        match extract_row(lines, &mut pos) {
            Err(e) => {
                return Err(e);
            },
            Ok(None) => {
                proof {
                    assert(spec_rows_from(vl, pos0) == Some(Seq::<RowV>::empty()));
                    assert(crate::model::view_rows(acc@) + Seq::<RowV>::empty()
                        =~= crate::model::view_rows(acc@));
                }
                return Ok(acc);
            },
            Ok(Some(row)) => {
                proof {
                    let step = spec_extract_row(vl, pos0);
                    let rw = step->Found_row;
                    let nx = step->Found_next;
                    match spec_rows_from(vl, nx) {
                        Some(rest) => {
                            assert(spec_rows_from(vl, pos0) == Some(seq![rw] + rest));
                            assert(crate::model::view_rows(acc@.push(row)) =~= crate::model::view_rows(
                                acc@,
                            ) + seq![row@]);
                            assert((crate::model::view_rows(acc@) + seq![rw]) + rest
                                =~= crate::model::view_rows(acc@) + (seq![rw] + rest));
                        },
                        None => {
                            assert(spec_rows_from(vl, pos0) is None);
                        },
                    }
                }
                acc.push(row);
            },
        }
    }
}

} // verus!
