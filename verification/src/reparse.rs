//! Re-parsing a rendered posting line: recovers the account and the amount
//! from the fixed-width layout, and the proof that rendering loses neither.
use crate::config::{Config, ConfigV};
use crate::render::{pay_fits, pay_pad, sign_bytes, sign_len, spec_pay_line};
use crate::text::{
    find_first, find_first_from, find_first_from_vec, find_first_vec, lemma_find_first_from,
    matches_at, spaces, subvec,
};
use crate::tokens::{minus_sign, one_space};
use vstd::prelude::*;
use vstd::string::StringSliceAdditionalSpecFns;
use vstd::utf8::{is_ascii_chars, is_ascii_chars_encode_utf8};

verus! {

/// A single space, as the byte the layout pads with.
pub open spec fn space_pat() -> Seq<u8> {
    seq![32u8]
}

/// First index at or after `i` whose byte is not a space.
pub open spec fn skip_spaces(s: Seq<u8>, i: int) -> int
    decreases s.len() - i,
{
    if 0 <= i < s.len() && s[i] == 32 {
        skip_spaces(s, i + 1)
    } else {
        i
    }
}

/// Reads `(account, amount)` back out of a rendered posting line: after the
/// indent, the account runs to the first space; the amount is the next
/// token, with a single leading `-` removed.
pub open spec fn spec_parse_pay_line(cfg: ConfigV, line: Seq<u8>) -> Option<(Seq<u8>, Seq<u8>)> {
    if line.len() < cfg.indent.len() {
        None
    } else {
        let rest = line.subrange(cfg.indent.len() as int, line.len() as int);
        match find_first(rest, space_pat()) {
            None => None,
            Some(a) => {
                let acc = rest.subrange(0, a);
                let j = skip_spaces(rest, a);
                if j >= rest.len() {
                    None
                } else {
                    let e = match find_first_from(rest, space_pat(), j) {
                        Some(e) => e,
                        None => rest.len() as int,
                    };
                    let tok = rest.subrange(j, e);
                    if tok.len() == 0 {
                        None
                    } else if tok[0] == 45 {
                        if tok.len() >= 2 {
                            Some((acc, tok.subrange(1, tok.len() as int)))
                        } else {
                            None
                        }
                    } else {
                        Some((acc, tok))
                    }
                }
            },
        }
    }
}

/// Re-parses a rendered posting line into `(account, amount)`.
pub fn parse_pay_line(cfg: &Config, line: &Vec<u8>) -> (r: Option<(Vec<u8>, Vec<u8>)>)
    ensures
        match spec_parse_pay_line(cfg@, line@) {
            Some(p) => r matches Some(got) && got.0@ == p.0 && got.1@ == p.1,
            None => r is None,
        },
{
    let il = cfg.indent.len();
    if line.len() < il {
        return None;
    }
    let rest = subvec(line, il, line.len());
    let mut sp: Vec<u8> = Vec::new();
    sp.push(32u8);
    proof {
        assert(sp@ =~= space_pat());
    }
    let a = match find_first_vec(&rest, &sp) {
        None => {
            return None;
        },
        Some(a) => a,
    };
    proof {
        lemma_find_first_from(rest@, sp@, 0);
    }
    let acc = subvec(&rest, 0, a);
    let rn = rest.len();
    let mut j: usize = a;
    while j < rn && rest[j] == 32
        invariant
            rn == rest@.len(),
            a <= j <= rn,
            skip_spaces(rest@, a as int) == skip_spaces(rest@, j as int),
        decreases rn - j,
    {
        j = j + 1;
    }
    proof {
        assert(skip_spaces(rest@, j as int) == j as int);
    }
    if j >= rn {
        return None;
    }
    let e = match find_first_from_vec(&rest, &sp, j) {
        Some(e) => {
            proof {
                lemma_find_first_from(rest@, sp@, j as int);
            }
            e
        },
        None => rn,
    };
    let tok = subvec(&rest, j, e);
    if tok.len() == 0 {
        return None;
    }
    if tok[0] == 45 {
        if tok.len() >= 2 {
            let amt = subvec(&tok, 1, tok.len());
            return Some((acc, amt));
        }
        return None;
    }
    Some((acc, tok))
}

proof fn lemma_one_space_byte()
    ensures
        one_space() == seq![32u8],
{
    reveal_strlit(" ");
    assert(is_ascii_chars(" "@)) by {
        assert(" "@.len() == 1);
        assert(" "@[0] == ' ');
    }
    is_ascii_chars_encode_utf8(" "@);
    assert(one_space() =~= seq![32u8]);
}

proof fn lemma_minus_byte()
    ensures
        minus_sign() == seq![45u8],
{
    reveal_strlit("-");
    assert(is_ascii_chars("-"@)) by {
        assert("-"@.len() == 1);
        assert("-"@[0] == '-');
    }
    is_ascii_chars_encode_utf8("-"@);
    assert(minus_sign() =~= seq![45u8]);
}

proof fn lemma_skip_spaces_range(s: Seq<u8>, i: int, m: int)
    requires
        0 <= i <= m <= s.len(),
        forall|k: int| i <= k < m ==> s[k] == 32,
        m == s.len() || s[m] != 32,
    ensures
        skip_spaces(s, i) == m,
    decreases m - i,
{
    if i < m {
        lemma_skip_spaces_range(s, i + 1, m);
    }
}

/// Round-trip: re-parsing a rendered posting line recovers exactly the
/// account and the amount that were rendered, for any account without
/// spaces and any amount without spaces that does not begin with a sign —
/// the padding loses nothing.
#[verifier::rlimit(100)]
pub proof fn lemma_pay_round_trip(
    cfg: ConfigV,
    account: Seq<u8>,
    negative: bool,
    amount: Seq<u8>,
    comment: Seq<u8>,
)
    requires
        pay_fits(cfg, account, negative, amount),
        account.len() > 0,
        forall|k: int| 0 <= k < account.len() ==> account[k] != 32,
        amount.len() > 0,
        forall|k: int| 0 <= k < amount.len() ==> amount[k] != 32,
        amount[0] != 45,
    ensures
        spec_parse_pay_line(cfg, spec_pay_line(cfg, account, negative, amount, comment)) == Some(
            (account, amount),
        ),
{
    reveal(pay_fits);
    reveal(spec_pay_line);
    lemma_one_space_byte();
    lemma_minus_byte();
    let pad = pay_pad(cfg, account, negative, amount);
    let line = spec_pay_line(cfg, account, negative, amount, comment);
    let il = cfg.indent.len() as int;
    let sg = sign_bytes(negative);
    let slen = sign_len(negative);
    assert(sg.len() == slen);
    let tail = account + spaces(pad) + one_space() + sg + amount + one_space() + cfg.commodity
        + crate::tokens::trailing_comment_sep() + comment + crate::tokens::newline();
    assert(line =~= cfg.indent + tail);
    assert(line.len() >= il);
    let rest = line.subrange(il, line.len() as int);
    assert(rest =~= tail);
    let al = account.len() as int;
    assert(forall|k: int| 0 <= k < al ==> tail[k] == account[k]);
    assert(forall|k: int| al <= k < al + pad ==> tail[k] == 32);
    assert(tail[al + pad] == one_space()[0]);
    assert(tail[al + pad] == 32);
    let j = al + pad + 1;
    assert(forall|k: int| al <= k < j ==> tail[k] == 32);
    // the byte after the padding region: the sign or the amount's first byte
    assert(tail.len() == j + slen + amount.len() + 1 + cfg.commodity.len()
        + crate::tokens::trailing_comment_sep().len() + comment.len()
        + crate::tokens::newline().len());
    if negative {
        assert(tail[j] == sg[0]);
        assert(tail[j] == 45);
    } else {
        assert(tail[j] == amount[0]);
    }
    assert(tail[j] != 32);
    // the first space of the line sits right after the account
    assert(matches_at(tail, space_pat(), al)) by {
        assert(tail.subrange(al, al + 1) =~= space_pat());
    }
    lemma_find_first_from(tail, space_pat(), 0);
    let m = find_first(tail, space_pat());
    assert(m is Some);
    let mi = m->Some_0;
    assert(mi <= al);
    assert(tail[mi] == 32) by {
        assert(tail.subrange(mi, mi + 1)[0] == tail[mi]);
    }
    assert(mi == al);
    // skipping spaces lands on the token after the padding
    lemma_skip_spaces_range(tail, al, j);
    // the token ends at the space after the amount
    let e0 = j + slen + amount.len();
    assert(forall|k: int| j <= k < j + slen ==> tail[k] == 45);
    assert(forall|k: int| j + slen <= k < e0 ==> tail[k] == amount[k - j - slen]);
    assert(tail[e0] == one_space()[0]);
    assert(tail[e0] == 32);
    assert(matches_at(tail, space_pat(), e0)) by {
        assert(tail.subrange(e0, e0 + 1) =~= space_pat());
    }
    lemma_find_first_from(tail, space_pat(), j);
    let e = find_first_from(tail, space_pat(), j);
    assert(e is Some);
    let ei = e->Some_0;
    assert(ei <= e0);
    assert(tail[ei] == 32) by {
        assert(tail.subrange(ei, ei + 1)[0] == tail[ei]);
    }
    assert(ei == e0) by {
        if ei < e0 {
            if ei < j + slen {
                assert(tail[ei] == 45);
            } else {
                assert(tail[ei] == amount[ei - j - slen]);
            }
        }
    }
    let tok = tail.subrange(j, e0);
    assert(tok =~= sg + amount);
    let acc = tail.subrange(0, al);
    assert(acc =~= account);
    if negative {
        assert(tok[0] == 45);
        assert(tok.len() == 1 + amount.len());
        assert(tok.subrange(1, tok.len() as int) =~= amount);
    } else {
        assert(tok =~= amount);
        assert(tok[0] == amount[0]);
    }
}

} // verus!
