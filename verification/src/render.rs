//! Ledger formatter: the transaction header line, the asset-account line
//! with the running balance, and the posting lines, each aligned to the
//! configured column width.
use crate::classify::{classify_title, spec_narration, spec_title_comment};
use crate::config::{indent_display_width, indent_width, Config, ConfigV};
use crate::model::{LedgerError, LedgerErrorV};
use crate::text::{append_bytes, copy_bytes, push_spaces, spaces};
use crate::tokens::{balance_eq_sep, header_sep, lit, minus_sign, newline, one_space,
    trailing_comment_sep};
use vstd::prelude::*;

verus! {

/// The header line: `DATE * NARRATION`, then `  ; COMMENT` when the
/// classifier produced a comment, then the newline.
#[verifier::opaque]
pub open spec fn spec_header_line(date: Seq<u8>, title: Seq<u8>) -> Seq<u8> {
    let base = date + header_sep() + spec_narration(title);
    if spec_title_comment(title).len() > 0 {
        base + trailing_comment_sep() + spec_title_comment(title) + newline()
    } else {
        base + newline()
    }
}

/// Renders the header line of a transaction.
pub fn header(date: &Vec<u8>, title: &Vec<u8>) -> (r: Vec<u8>)
    ensures
        r@ == spec_header_line(date@, title@),
{
    proof {
        reveal(spec_header_line);
    }
    let (narration, comment) = classify_title(title);
    let mut out = copy_bytes(date);
    append_bytes(&mut out, &lit(" * "));
    append_bytes(&mut out, &narration);
    if comment.len() > 0 {
        append_bytes(&mut out, &lit("  ; "));
        append_bytes(&mut out, &comment);
    }
    append_bytes(&mut out, &lit("\n"));
    out
}

/// The asset line fits when the indent and the account leave room inside
/// the line width, and the padding stays within the machine's bounds.
#[verifier::opaque]
pub open spec fn balance_fits(cfg: ConfigV) -> bool {
    &&& indent_display_width(cfg) + cfg.asset.len() <= cfg.line_width
    &&& cfg.line_width - indent_display_width(cfg) - cfg.asset.len() + cfg.commodity.len() + 1
        <= usize::MAX
}

/// Padding after the asset account: measured so the `=` column lines up one
/// space past the amount column of the posting lines.
pub open spec fn balance_pad(cfg: ConfigV) -> int {
    cfg.line_width - indent_display_width(cfg) - cfg.asset.len() + cfg.commodity.len() + 1
}

/// The asset-account line: indent, asset account, padding, ` = `, the
/// running balance and the commodity.
#[verifier::opaque]
pub open spec fn spec_balance_line(cfg: ConfigV, total: Seq<u8>) -> Seq<u8> {
    cfg.indent + cfg.asset + spaces(balance_pad(cfg)) + balance_eq_sep() + total + one_space()
        + cfg.commodity + newline()
}

/// Renders the asset-account line with the running balance `total`; fails
/// with `LineWidthExceeded` exactly when the configuration leaves no room.
pub fn balance(cfg: &Config, total: &Vec<u8>) -> (r: Result<Vec<u8>, LedgerError>)
    ensures
        balance_fits(cfg@) ==> (r matches Ok(v) && v@ == spec_balance_line(cfg@, total@)),
        !balance_fits(cfg@) ==> (r matches Err(e) && e@ == LedgerErrorV::LineWidthExceeded),
{
    proof {
        reveal(balance_fits);
        reveal(spec_balance_line);
    }
    let iw = indent_width(cfg);
    let alen = cfg.asset.len();
    let clen = cfg.commodity.len();
    let lw = cfg.line_width;
    if alen > lw {
        return Err(LedgerError::LineWidthExceeded);
    }
    if iw > lw - alen {
        return Err(LedgerError::LineWidthExceeded);
    }
    let base = lw - alen - iw;
    if base == usize::MAX || clen > usize::MAX - 1 - base {
        return Err(LedgerError::LineWidthExceeded);
    }
    let pad = base + clen + 1;
    let mut out = copy_bytes(&cfg.indent);
    append_bytes(&mut out, &cfg.asset);
    push_spaces(&mut out, pad);
    append_bytes(&mut out, &lit(" = "));
    append_bytes(&mut out, total);
    append_bytes(&mut out, &lit(" "));
    append_bytes(&mut out, &cfg.commodity);
    append_bytes(&mut out, &lit("\n"));
    Ok(out)
}

pub open spec fn sign_len(negative: bool) -> int {
    if negative {
        1
    } else {
        0
    }
}

pub open spec fn sign_bytes(negative: bool) -> Seq<u8> {
    if negative {
        minus_sign()
    } else {
        Seq::empty()
    }
}

/// A posting line fits when indent, account, sign, amount and the one
/// separating space stay inside the line width.
#[verifier::opaque]
pub open spec fn pay_fits(cfg: ConfigV, account: Seq<u8>, negative: bool, amount: Seq<u8>) -> bool {
    indent_display_width(cfg) + account.len() + sign_len(negative) + amount.len() + 1
        <= cfg.line_width
}

/// Padding between the account and the right-aligned amount.
pub open spec fn pay_pad(cfg: ConfigV, account: Seq<u8>, negative: bool, amount: Seq<u8>) -> int {
    cfg.line_width - indent_display_width(cfg) - account.len() - sign_len(negative) - amount.len()
        - 1
}

/// A posting line: indent, account, padding, one space, the signed amount,
/// the commodity, and the trailing comment.
#[verifier::opaque]
pub open spec fn spec_pay_line(
    cfg: ConfigV,
    account: Seq<u8>,
    negative: bool,
    amount: Seq<u8>,
    comment: Seq<u8>,
) -> Seq<u8> {
    cfg.indent + account + spaces(pay_pad(cfg, account, negative, amount)) + one_space()
        + sign_bytes(negative) + amount + one_space() + cfg.commodity + trailing_comment_sep()
        + comment + newline()
}

/// Renders one posting line; fails with `LineWidthExceeded` exactly when
/// the account, sign and amount do not fit inside the line width.
pub fn pay(
    cfg: &Config,
    account: &Vec<u8>,
    negative: bool,
    amount: &Vec<u8>,
    comment: &Vec<u8>,
) -> (r: Result<Vec<u8>, LedgerError>)
    ensures
        pay_fits(cfg@, account@, negative, amount@) ==> (r matches Ok(v) && v@ == spec_pay_line(
            cfg@,
            account@,
            negative,
            amount@,
            comment@,
        )),
        !pay_fits(cfg@, account@, negative, amount@) ==> (r matches Err(e) && e@
            == LedgerErrorV::LineWidthExceeded),
{
    proof {
        reveal(pay_fits);
        reveal(spec_pay_line);
    }
    let iw = indent_width(cfg);
    let lw = cfg.line_width;
    let alen = account.len();
    let mlen = amount.len();
    let slen: usize = if negative {
        1
    } else {
        0
    };
    if alen > lw {
        return Err(LedgerError::LineWidthExceeded);
    }
    let mut rem = lw - alen;
    if iw > rem {
        return Err(LedgerError::LineWidthExceeded);
    }
    rem = rem - iw;
    if slen > rem {
        return Err(LedgerError::LineWidthExceeded);
    }
    rem = rem - slen;
    if mlen > rem {
        return Err(LedgerError::LineWidthExceeded);
    }
    rem = rem - mlen;
    if rem < 1 {
        return Err(LedgerError::LineWidthExceeded);
    }
    let pad = rem - 1;
    let mut out = copy_bytes(&cfg.indent);
    append_bytes(&mut out, account);
    push_spaces(&mut out, pad);
    append_bytes(&mut out, &lit(" "));
    if negative {
        append_bytes(&mut out, &lit("-"));
        proof {
            assert(out@ == cfg@.indent + account@ + spaces(pad as int) + one_space()
                + sign_bytes(negative));
        }
    } else {
        proof {
            assert(out@ =~= cfg@.indent + account@ + spaces(pad as int) + one_space()
                + sign_bytes(negative));
        }
    }
    append_bytes(&mut out, amount);
    append_bytes(&mut out, &lit(" "));
    append_bytes(&mut out, &cfg.commodity);
    append_bytes(&mut out, &lit("  ; "));
    append_bytes(&mut out, comment);
    append_bytes(&mut out, &lit("\n"));
    Ok(out)
}

} // verus!
