//! Table locator: finds the transaction table between its start marker (the
//! `Balance` header with the commodity-in-parens, on one line or split
//! across two) and the end banner, discarding headers and footers.
use crate::model::LedgerError;
use crate::row::view_lines;
use crate::text::seq_eq;
use crate::tokens::{lit, marker_balance, marker_balance_one_line, marker_commodity, marker_end};
use vstd::prelude::*;

verus! {

/// Index of the first table line when the start marker begins at line `i`:
/// either `Balance` followed by the commodity line, or both tokens on one
/// line.
pub open spec fn start_marker_at(lines: Seq<Seq<u8>>, i: int) -> Option<int> {
    if 0 <= i < lines.len() && lines[i] == marker_balance() && i + 1 < lines.len() && lines[i + 1]
        == marker_commodity() {
        Some(i + 2)
    } else if 0 <= i < lines.len() && lines[i] == marker_balance_one_line() {
        Some(i + 1)
    } else {
        None
    }
}

/// First table line after the earliest start marker at or after `i`.
pub open spec fn find_start_from(lines: Seq<Seq<u8>>, i: int) -> Option<int>
    decreases lines.len() - i,
{
    if i < 0 || i >= lines.len() {
        None
    } else if start_marker_at(lines, i) is Some {
        start_marker_at(lines, i)
    } else {
        find_start_from(lines, i + 1)
    }
}

/// Last line holding the end banner, searching down from `i`.
pub open spec fn find_end_from(lines: Seq<Seq<u8>>, i: int) -> Option<int>
    decreases i + 1,
{
    if i < 0 || i >= lines.len() {
        None
    } else if lines[i] == marker_end() {
        Some(i)
    } else {
        find_end_from(lines, i - 1)
    }
}

/// The table region `[start, end)`: after the first start marker, before the
/// last end banner. `None` when either marker is missing or the banner
/// precedes the start.
pub open spec fn spec_locate(lines: Seq<Seq<u8>>) -> Option<(int, int)> {
    match find_start_from(lines, 0) {
        None => None,
        Some(s) => match find_end_from(lines, lines.len() - 1) {
            None => None,
            Some(e) => if s <= e {
                Some((s, e))
            } else {
                None
            },
        },
    }
}

/// Locates the transaction table, or fails with `BoundaryNotFound` exactly
/// when no start marker, no end banner, or no region between them exists.
pub fn locate_table(lines: &Vec<Vec<u8>>) -> (r: Result<(usize, usize), LedgerError>)
    ensures
        match spec_locate(view_lines(lines@)) {
            Some(se) => r matches Ok(p) && p.0 as int == se.0 && p.1 as int == se.1 && se.0 <= se.1
                <= lines@.len(),
            None => r matches Err(e) && e@ == crate::model::LedgerErrorV::BoundaryNotFound,
        },
{
    let start = match find_start(lines) {
        Some(s) => s,
        None => {
            return Err(LedgerError::BoundaryNotFound);
        },
    };
    let end = match find_end(lines) {
        Some(e) => e,
        None => {
            return Err(LedgerError::BoundaryNotFound);
        },
    };
    if start <= end {
        Ok((start, end))
    } else {
        Err(LedgerError::BoundaryNotFound)
    }
}

fn find_start(lines: &Vec<Vec<u8>>) -> (r: Option<usize>)
    ensures
        match find_start_from(view_lines(lines@), 0) {
            Some(s) => r matches Some(g) && g as int == s && s <= lines@.len(),
            None => r is None,
        },
{
    let ghost vl = view_lines(lines@);
    let n: usize = lines.len();
    let balance = lit("Balance");
    let commodity = lit("(RM)");
    let one_line = lit("Balance (RM)");
    let mut i: usize = 0;
    while i < n
        invariant
            n == lines@.len(),
            vl == view_lines(lines@),
            balance@ == marker_balance(),
            commodity@ == marker_commodity(),
            one_line@ == marker_balance_one_line(),
            i <= n,
            find_start_from(vl, 0) == find_start_from(vl, i as int),
        decreases n - i,
    {
        if seq_eq(&lines[i], &balance) && i + 1 < n && seq_eq(&lines[i + 1], &commodity) {
            proof {
                assert(start_marker_at(vl, i as int) == Some(i + 2));
                assert(find_start_from(vl, i as int) == start_marker_at(vl, i as int));
            }
            return Some(i + 2);
        }
        if seq_eq(&lines[i], &one_line) {
            proof {
                assert(start_marker_at(vl, i as int) == Some(i + 1));
                assert(find_start_from(vl, i as int) == start_marker_at(vl, i as int));
            }
            return Some(i + 1);
        }
        i = i + 1;
    }
    None
}

fn find_end(lines: &Vec<Vec<u8>>) -> (r: Option<usize>)
    ensures
        match find_end_from(view_lines(lines@), lines@.len() - 1) {
            Some(e) => r matches Some(g) && g as int == e && e < lines@.len(),
            None => r is None,
        },
{
    let ghost vl = view_lines(lines@);
    let n: usize = lines.len();
    if n == 0 {
        return None;
    }
    let end_banner = lit("Important!");
    let mut j: usize = n - 1;
    loop
        invariant
            n == lines@.len(),
            n >= 1,
            vl == view_lines(lines@),
            end_banner@ == marker_end(),
            j <= n - 1,
            find_end_from(vl, n - 1) == find_end_from(vl, j as int),
        decreases j + 1,
    {
        if seq_eq(&lines[j], &end_banner) {
            return Some(j);
        }
        if j == 0 {
            proof {
                assert(find_end_from(vl, 0) == find_end_from(vl, -1));
            }
            return None;
        }
        j = j - 1;
    }
}

} // verus!
