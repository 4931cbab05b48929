//! The full pipeline: locate the table, extract the rows, group them into
//! transactions, and render every transaction, failing loudly on the first
//! fatal condition.
use crate::config::{Config, ConfigV};
use crate::grouping::{group_rows, lemma_groups_structure, spec_groups};
use crate::locate::{locate_table, spec_locate};
use crate::model::{
    view_groups, view_rows, GroupV, LedgerError, LedgerErrorV, RowV, TransactionGroup,
};
use crate::posting::{posting_for_row, spec_posting};
use crate::render::{
    balance, balance_fits, header, pay, pay_fits, spec_balance_line, spec_header_line,
    spec_pay_line,
};
use crate::row::{extract_rows, spec_rows_from, view_lines};
use crate::text::{append_bytes, copy_bytes};
use crate::tokens::{lit, newline};
use vstd::prelude::*;

verus! {

/// The posting lines of a group's rows, in order; the first refused row or
/// oversized line decides the error.
pub open spec fn spec_render_postings(cfg: ConfigV, title: Seq<u8>, rows: Seq<RowV>) -> Result<
    Seq<u8>,
    LedgerErrorV,
>
    decreases rows.len(),
{
    if rows.len() == 0 {
        Ok(Seq::empty())
    } else {
        match spec_posting(cfg, title, rows[0]) {
            Err(e) => Err(e),
            Ok(p) => if !pay_fits(cfg, p.account, p.negative, p.amount) {
                Err(LedgerErrorV::LineWidthExceeded)
            } else {
                match spec_render_postings(cfg, title, rows.drop_first()) {
                    Err(e) => Err(e),
                    Ok(rest) => Ok(
                        spec_pay_line(cfg, p.account, p.negative, p.amount, p.comment) + rest,
                    ),
                }
            },
        }
    }
}

/// One rendered transaction: header line, asset line with the first row's
/// running balance, one line per posting, and a separating blank line.
pub open spec fn spec_render_group(cfg: ConfigV, g: GroupV) -> Result<Seq<u8>, LedgerErrorV> {
    if !balance_fits(cfg) {
        Err(LedgerErrorV::LineWidthExceeded)
    } else {
        match spec_render_postings(cfg, g.title, g.rows) {
            Err(e) => Err(e),
            Ok(ps) => Ok(
                spec_header_line(g.date, g.title) + spec_balance_line(cfg, g.rows[0].balance) + ps
                    + newline(),
            ),
        }
    }
}

/// All rendered transactions, concatenated in order.
pub open spec fn spec_render_groups(cfg: ConfigV, gs: Seq<GroupV>) -> Result<Seq<u8>, LedgerErrorV>
    decreases gs.len(),
{
    if gs.len() == 0 {
        Ok(Seq::empty())
    } else {
        match spec_render_group(cfg, gs[0]) {
            Err(e) => Err(e),
            Ok(t) => match spec_render_groups(cfg, gs.drop_first()) {
                Err(e) => Err(e),
                Ok(rest) => Ok(t + rest),
            },
        }
    }
}

/// The whole conversion on the raw statement lines: `BoundaryNotFound` when
/// the table markers are missing, `TrailingUnparsedText` when the table
/// region matches no clean row sequence, and the rendered ledger otherwise.
pub open spec fn spec_process(cfg: ConfigV, lines: Seq<Seq<u8>>) -> Result<Seq<u8>, LedgerErrorV> {
    match spec_locate(lines) {
        None => Err(LedgerErrorV::BoundaryNotFound),
        Some(se) => match spec_rows_from(lines.subrange(se.0, se.1), 0) {
            None => Err(LedgerErrorV::TrailingUnparsedText),
            Some(rows) => spec_render_groups(cfg, spec_groups(rows)),
        },
    }
}

/// Renders one transaction group.
#[verifier::rlimit(100)]
pub fn render_group(cfg: &Config, g: &TransactionGroup) -> (r: Result<Vec<u8>, LedgerError>)
    requires
        g@.rows.len() > 0,
    ensures
        match spec_render_group(cfg@, g@) {
            Ok(v) => r matches Ok(got) && got@ == v,
            Err(e) => r matches Err(got) && got@ == e,
        },
{
    let mut out = header(&g.date, &g.title);
    let bal = match balance(cfg, &g.rows[0].balance) {
        Ok(b) => b,
        Err(e) => {
            return Err(e);
        },
    };
    append_bytes(&mut out, &bal);
    let ghost head = out@;
    let n: usize = g.rows.len();
    let mut k: usize = 0;
    proof {
        assert(g@.rows.skip(0) =~= g@.rows);
    }
    while k < n
        invariant
            n == g.rows@.len(),
            k <= n,
            balance_fits(cfg@),
            head == spec_header_line(g@.date, g@.title) + spec_balance_line(
                cfg@,
                g@.rows[0].balance,
            ),
            match spec_render_postings(cfg@, g@.title, g@.rows.skip(k as int)) {
                Ok(rest) => spec_render_postings(cfg@, g@.title, g@.rows) matches Ok(all) && head
                    + all == out@ + rest,
                Err(e) => spec_render_postings(cfg@, g@.title, g@.rows) matches Err(e2) && e == e2,
            },
        decreases n - k,
    {
        proof {
            assert(g@.rows.skip(k as int)[0] == g@.rows[k as int]);
            assert(g@.rows.skip(k as int).drop_first() =~= g@.rows.skip(k + 1 as int));
        }
        let p = match posting_for_row(cfg, &g.title, &g.rows[k]) {
            Ok(p) => p,
            Err(e) => {
                return Err(e);
            },
        };
        let line = match pay(cfg, &p.account, p.negative, &p.amount, &p.comment) {
            Ok(l) => l,
            Err(e) => {
                return Err(e);
            },
        };
        append_bytes(&mut out, &line);
        k = k + 1;
    }
    proof {
        assert(g@.rows.skip(n as int) =~= Seq::<RowV>::empty());
        match spec_render_postings(cfg@, g@.title, g@.rows) {
            Ok(all) => {
                assert(head + all == out@ + Seq::<u8>::empty());
                assert(out@ + Seq::<u8>::empty() =~= out@);
            },
            Err(_) => {},
        }
    }
    append_bytes(&mut out, &lit("\n"));
    Ok(out)
}

/// Renders every group, in order.
#[verifier::rlimit(100)]
pub fn render_groups(cfg: &Config, gs: &Vec<TransactionGroup>) -> (r: Result<Vec<u8>, LedgerError>)
    requires
        forall|i: int| 0 <= i < gs@.len() ==> (#[trigger] gs@[i])@.rows.len() > 0,
    ensures
        match spec_render_groups(cfg@, view_groups(gs@)) {
            Ok(v) => r matches Ok(got) && got@ == v,
            Err(e) => r matches Err(got) && got@ == e,
        },
{
    let ghost gv = view_groups(gs@);
    let n: usize = gs.len();
    let mut out: Vec<u8> = Vec::new();
    let mut i: usize = 0;
    proof {
        assert(gv.skip(0) =~= gv);
    }
    while i < n
        invariant
            n == gs@.len(),
            gv == view_groups(gs@),
            i <= n,
            forall|l: int| 0 <= l < gs@.len() ==> (#[trigger] gs@[l])@.rows.len() > 0,
            match spec_render_groups(cfg@, gv.skip(i as int)) {
                Ok(rest) => spec_render_groups(cfg@, gv) matches Ok(all) && all == out@ + rest,
                Err(e) => spec_render_groups(cfg@, gv) matches Err(e2) && e == e2,
            },
        decreases n - i,
    {
        proof {
            assert(gv.skip(i as int)[0] == gv[i as int]);
            assert(gv.skip(i as int).drop_first() =~= gv.skip(i + 1 as int));
        }
        let t = match render_group(cfg, &gs[i]) {
            Ok(t) => t,
            Err(e) => {
                return Err(e);
            },
        };
        append_bytes(&mut out, &t);
        i = i + 1;
    }
    proof {
        assert(gv.skip(n as int) =~= Seq::<GroupV>::empty());
        match spec_render_groups(cfg@, gv) {
            Ok(all) => {
                assert(out@ + Seq::<u8>::empty() =~= out@);
            },
            Err(_) => {},
        }
    }
    Ok(out)
}

/// A copy of `lines[i..j]`.
fn copy_lines_range(lines: &Vec<Vec<u8>>, i: usize, j: usize) -> (r: Vec<Vec<u8>>)
    requires
        i <= j <= lines@.len(),
    ensures
        view_lines(r@) == view_lines(lines@).subrange(i as int, j as int),
{
    let ghost vl = view_lines(lines@);
    let mut r: Vec<Vec<u8>> = Vec::new();
    let mut k: usize = i;
    proof {
        assert(view_lines(r@) =~= vl.subrange(i as int, i as int));
    }
    while k < j
        invariant
            i <= k <= j <= lines@.len(),
            vl == view_lines(lines@),
            r@.len() == k - i,
            view_lines(r@) == vl.subrange(i as int, k as int),
        decreases j - k,
    {
        let ghost og = r@;
        let c = copy_bytes(&lines[k]);
        proof {
            assert(c@ == vl[k as int]);
        }
        r.push(c);
        proof {
            assert(view_lines(r@) =~= vl.subrange(i as int, (k + 1) as int)) by {
                assert(r@ == og.push(c));
                assert forall|l: int| 0 <= l < r@.len() implies view_lines(r@)[l] == vl.subrange(
                    i as int,
                    (k + 1) as int,
                )[l] by {
                    if l < og.len() {
                        assert(view_lines(og)[l] == vl.subrange(i as int, k as int)[l]);
                    } else {
                        assert(r@[l] == c);
                    }
                }
            }
        }
        k = k + 1;
    }
    r
}

/// Converts the raw statement lines into the rendered ledger text: locates
/// the table, extracts and groups the rows, and renders each transaction.
/// Fails, never guessing, with the first fatal condition met.
#[verifier::rlimit(100)]
pub fn process(cfg: &Config, lines: &Vec<Vec<u8>>) -> (r: Result<Vec<u8>, LedgerError>)
    ensures
        match spec_process(cfg@, view_lines(lines@)) {
            Ok(v) => r matches Ok(got) && got@ == v,
            Err(e) => r matches Err(got) && got@ == e,
        },
{
    let (start, end) = match locate_table(lines) {
        Ok(se) => se,
        Err(e) => {
            return Err(e);
        },
    };
    let table = copy_lines_range(lines, start, end);
    let rows = match extract_rows(&table) {
        Ok(rows) => rows,
        Err(e) => {
            return Err(e);
        },
    };
    let gs = group_rows(&rows);
    proof {
        lemma_groups_structure(view_rows(rows@));
        assert forall|i: int| 0 <= i < gs@.len() implies (#[trigger] gs@[i])@.rows.len() > 0 by {
            assert(view_groups(gs@)[i] == gs@[i]@);
        }
    }
    render_groups(cfg, &gs)
}

} // verus!
