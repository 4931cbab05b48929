//! Title classifier: derives the transaction narration and the header
//! comment from the raw title through an ordered set of shape rules, first
//! match wins.
use crate::text::{
    contains_seq, contains_vec, copy_bytes, ends_with, find_first, find_first_vec, find_last,
    find_last_vec, is_prefix_of, is_suffix_of, lemma_find_first_from, lemma_find_last_complete,
    starts_with, strip_prefix_rep, strip_prefix_rep_vec, subvec,
};
use crate::tokens::{
    adjustment_label, institution_label, lit, title_adjustment_prefix, title_colon, title_deposit,
    title_into, title_invested, title_repayment_end, title_revert, title_withdrawal,
};
use vstd::prelude::*;
use vstd::string::StringSliceAdditionalSpecFns;

verus! {

/// Exactly the deposit title.
pub open spec fn is_deposit(t: Seq<u8>) -> bool {
    t == title_deposit()
}

pub open spec fn is_withdrawal(t: Seq<u8>) -> bool {
    is_prefix_of(title_withdrawal(), t)
}

/// An automatic-investment title, e.g.
/// `Auto Investment: invested 100 into XXXX-00000000`.
pub open spec fn is_invested(t: Seq<u8>) -> bool {
    contains_seq(t, title_invested())
}

/// A repayment title: a parenthesized `(N of M repayment)` suffix, whose
/// opening parenthesis sits strictly before the closing one.
pub open spec fn is_repayment(t: Seq<u8>) -> bool {
    &&& is_suffix_of(title_repayment_end(), t)
    &&& match find_last(t, "(".spec_bytes()) {
        Some(i) => i + "(".spec_bytes().len() < t.len(),
        None => false,
    }
}

pub open spec fn is_adjustment(t: Seq<u8>) -> bool {
    is_prefix_of(title_adjustment_prefix(), t)
}

/// Narration of an invested title: the text after the last `into `, or the
/// whole title when that token is absent.
pub open spec fn invested_narration(t: Seq<u8>) -> Seq<u8> {
    match find_last(t, title_into()) {
        Some(i) => t.subrange(i + title_into().len(), t.len() as int),
        None => t,
    }
}

/// Comment of an invested title: the text before the first `: `, or the
/// whole title when that token is absent.
pub open spec fn invested_comment(t: Seq<u8>) -> Seq<u8> {
    match find_first(t, title_colon()) {
        Some(i) => t.subrange(0, i),
        None => t,
    }
}

/// Narration of a repayment title: the text before the trailing ` (`, with
/// any leading `Revert ` stripped.
pub open spec fn repayment_narration(t: Seq<u8>) -> Seq<u8> {
    let i = find_last(t, "(".spec_bytes())->Some_0;
    let pre = if i > 0 && t[i - 1] == 32 {
        t.subrange(0, i - 1)
    } else {
        t.subrange(0, i)
    };
    strip_prefix_rep(pre, title_revert())
}

/// Comment of a repayment title: the parenthesized suffix without its
/// parentheses.
pub open spec fn repayment_comment(t: Seq<u8>) -> Seq<u8> {
    let i = find_last(t, "(".spec_bytes())->Some_0;
    t.subrange(i + "(".spec_bytes().len(), t.len() - 1)
}

/// The narration of a title under the ordered shape rules.
pub open spec fn spec_narration(t: Seq<u8>) -> Seq<u8> {
    if is_deposit(t) || is_withdrawal(t) {
        institution_label()
    } else if is_invested(t) {
        invested_narration(t)
    } else if is_repayment(t) {
        repayment_narration(t)
    } else if is_adjustment(t) {
        t
    } else {
        strip_prefix_rep(t, title_revert())
    }
}

/// The header comment of a title under the ordered shape rules; empty for a
/// title no rule matches.
pub open spec fn spec_title_comment(t: Seq<u8>) -> Seq<u8> {
    if is_deposit(t) || is_withdrawal(t) {
        t
    } else if is_invested(t) {
        invested_comment(t)
    } else if is_repayment(t) {
        repayment_comment(t)
    } else if is_adjustment(t) {
        adjustment_label()
    } else {
        Seq::empty()
    }
}

/// The rule table is exhaustive: every title falls under the first matching
/// of the five documented shapes or under the default rule, and the
/// classifier produces exactly that row of the table.
pub proof fn lemma_classifier_exhaustive(t: Seq<u8>)
    ensures
        (is_deposit(t) || is_withdrawal(t)) ==> spec_narration(t) == institution_label()
            && spec_title_comment(t) == t,
        !(is_deposit(t) || is_withdrawal(t)) && is_invested(t) ==> spec_narration(t)
            == invested_narration(t) && spec_title_comment(t) == invested_comment(t),
        !(is_deposit(t) || is_withdrawal(t) || is_invested(t)) && is_repayment(t)
            ==> spec_narration(t) == repayment_narration(t) && spec_title_comment(t)
            == repayment_comment(t),
        !(is_deposit(t) || is_withdrawal(t) || is_invested(t) || is_repayment(t)) && is_adjustment(
            t,
        ) ==> spec_narration(t) == t && spec_title_comment(t) == adjustment_label(),
        !(is_deposit(t) || is_withdrawal(t) || is_invested(t) || is_repayment(t) || is_adjustment(
            t,
        )) ==> spec_narration(t) == strip_prefix_rep(t, title_revert()) && spec_title_comment(t)
            == Seq::<u8>::empty(),
{
}

pub fn invested_comment_vec(title: &Vec<u8>) -> (r: Vec<u8>)
    ensures
        r@ == invested_comment(title@),
{
    let colon_tok = lit(": ");
    if colon_tok.len() == 0 {
        proof {
            assert(find_first(title@, title_colon()) is None);
        }
        return copy_bytes(title);
    }
    match find_first_vec(title, &colon_tok) {
        Some(i) => {
            proof {
                lemma_find_first_from(title@, colon_tok@, 0);
            }
            subvec(title, 0, i)
        },
        None => copy_bytes(title),
    }
}

/// Classifies a raw title into `(narration, comment)`, first matching shape
/// rule winning: deposit or withdrawal, invested, repayment suffix,
/// adjustment, and the title itself (leading `Revert ` stripped) otherwise.
pub fn classify_title(title: &Vec<u8>) -> (r: (Vec<u8>, Vec<u8>))
    ensures
        r.0@ == spec_narration(title@),
        r.1@ == spec_title_comment(title@),
{
    let deposit = lit("Deposit");
    let withdrawal = lit("Withdrawal");
    let invested = lit("invested");
    let repayment_end = lit("repayment)");
    let open_paren = lit("(");
    let into_tok = lit("into ");
    let colon_tok = lit(": ");
    let revert = lit("Revert ");
    let adjustment_prefix = lit("Adjustment for investment to ");
    let n: usize = title.len();
    if crate::text::seq_eq(title, &deposit) || starts_with(title, &withdrawal) {
        return (lit("Funding Societies"), copy_bytes(title));
    }
    if contains_vec(title, &invested) {
        let narration = if into_tok.len() > 0 {
            match find_last_vec(title, &into_tok) {
                Some(i) => {
                    proof {
                        lemma_find_last_complete(title@, into_tok@);
                    }
                    subvec(title, i + into_tok.len(), n)
                },
                None => copy_bytes(title),
            }
        } else {
            proof {
                assert(find_last(title@, title_into()) is None);
            }
            copy_bytes(title)
        };
        let comment = invested_comment_vec(title);
        return (narration, comment);
    }
    if ends_with(title, &repayment_end) && open_paren.len() > 0 {
        match find_last_vec(title, &open_paren) {
            Some(i) => {
                proof {
                    lemma_find_last_complete(title@, open_paren@);
                }
                if i + open_paren.len() < n {
                    let pre = if i > 0 && title[i - 1] == 32 {
                        subvec(title, 0, i - 1)
                    } else {
                        subvec(title, 0, i)
                    };
                    let narration = strip_prefix_rep_vec(&pre, &revert);
                    let comment = subvec(title, i + open_paren.len(), n - 1);
                    return (narration, comment);
                }
                // the last `(` overlaps the end of the title: not the
                // repayment shape, fall through
            },
            None => {},
        }
    }
    proof {
        assert(!is_repayment(title@));
    }
    if starts_with(title, &adjustment_prefix) {
        return (copy_bytes(title), lit("Adjustment"));
    }
    (strip_prefix_rep_vec(title, &revert), Vec::new())
}

} // verus!
