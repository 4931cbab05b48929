//! Byte-sequence helpers: searching, slicing and stripping over UTF-8 text
//! kept as plain bytes. All statement markers are ASCII, so byte-for-byte
//! comparison is exact.
use vstd::prelude::*;

verus! {

pub open spec fn is_space(b: u8) -> bool {
    b == 32 || b == 9 || b == 10 || b == 13
}

pub open spec fn is_digit(b: u8) -> bool {
    48 <= b <= 57
}

pub open spec fn is_blank(s: Seq<u8>) -> bool {
    forall|i: int| 0 <= i < s.len() ==> is_space(#[trigger] s[i])
}

/// The pattern `p` occurs in `s` starting at position `i`.
pub open spec fn matches_at(s: Seq<u8>, p: Seq<u8>, i: int) -> bool {
    0 <= i && i + p.len() <= s.len() && s.subrange(i, i + p.len() as int) == p
}

pub open spec fn is_prefix_of(p: Seq<u8>, s: Seq<u8>) -> bool {
    matches_at(s, p, 0)
}

pub open spec fn is_suffix_of(p: Seq<u8>, s: Seq<u8>) -> bool {
    matches_at(s, p, s.len() - p.len())
}

pub open spec fn contains_seq(s: Seq<u8>, p: Seq<u8>) -> bool {
    exists|i: int| matches_at(s, p, i)
}

/// Position of the first occurrence of a non-empty pattern `p` in `s` at or
/// after `i`.
pub open spec fn find_first_from(s: Seq<u8>, p: Seq<u8>, i: int) -> Option<int>
    decreases s.len() - i,
{
    if p.len() == 0 || i < 0 || i + p.len() > s.len() {
        None
    } else if matches_at(s, p, i) {
        Some(i)
    } else {
        find_first_from(s, p, i + 1)
    }
}

pub open spec fn find_first(s: Seq<u8>, p: Seq<u8>) -> Option<int> {
    find_first_from(s, p, 0)
}

/// Position of the last occurrence of a non-empty pattern `p` in `s` at or
/// before `i`.
pub open spec fn find_last_before(s: Seq<u8>, p: Seq<u8>, i: int) -> Option<int>
    decreases i + 1,
{
    if p.len() == 0 || i < 0 {
        None
    } else if matches_at(s, p, i) {
        Some(i)
    } else {
        find_last_before(s, p, i - 1)
    }
}

pub open spec fn find_last(s: Seq<u8>, p: Seq<u8>) -> Option<int> {
    find_last_before(s, p, s.len() - p.len())
}

pub proof fn lemma_find_first_from(s: Seq<u8>, p: Seq<u8>, i: int)
    requires
        0 <= i,
        p.len() > 0,
    ensures
        match find_first_from(s, p, i) {
            Some(j) => i <= j && matches_at(s, p, j) && (forall|k: int|
                i <= k < j ==> !matches_at(s, p, k)),
            None => forall|k: int| i <= k ==> !matches_at(s, p, k),
        },
    decreases s.len() - i,
{
    if i + p.len() > s.len() {
        assert forall|k: int| i <= k implies !matches_at(s, p, k) by {
            if matches_at(s, p, k) {
                assert(k + p.len() <= s.len());
            }
        }
    } else if matches_at(s, p, i) {
    } else {
        lemma_find_first_from(s, p, i + 1);
    }
}

pub proof fn lemma_find_last_before(s: Seq<u8>, p: Seq<u8>, i: int)
    requires
        p.len() > 0,
    ensures
        match find_last_before(s, p, i) {
            Some(j) => j <= i && matches_at(s, p, j) && (forall|k: int|
                j < k <= i ==> !matches_at(s, p, k)),
            None => forall|k: int| k <= i ==> !matches_at(s, p, k),
        },
    decreases i + 1,
{
    if i < 0 {
    } else if matches_at(s, p, i) {
    } else {
        lemma_find_last_before(s, p, i - 1);
    }
}

pub proof fn lemma_find_last_complete(s: Seq<u8>, p: Seq<u8>)
    requires
        p.len() > 0,
    ensures
        match find_last(s, p) {
            Some(j) => matches_at(s, p, j) && (forall|k: int| j < k ==> !matches_at(s, p, k)),
            None => forall|k: int| !matches_at(s, p, k),
        },
{
    lemma_find_last_before(s, p, s.len() - p.len());
    match find_last(s, p) {
        Some(j) => {
            assert forall|k: int| j < k implies !matches_at(s, p, k) by {
                if matches_at(s, p, k) {
                    assert(k + p.len() <= s.len());
                }
            }
        },
        None => {
            assert forall|k: int| !matches_at(s, p, k) by {
                if matches_at(s, p, k) {
                    assert(k + p.len() <= s.len());
                }
            }
        },
    }
}

pub fn seq_eq(a: &Vec<u8>, b: &Vec<u8>) -> (r: bool)
    ensures
        r == (a@ == b@),
{
    if a.len() != b.len() {
        return false;
    }
    let n: usize = a.len();
    let mut i: usize = 0;
    while i < n
        invariant
            n == a@.len() == b@.len(),
            i <= n,
            forall|k: int| 0 <= k < i ==> a@[k] == b@[k],
        decreases n - i,
    {
        if a[i] != b[i] {
            return false;
        }
        i = i + 1;
    }
    proof {
        assert(a@ =~= b@);
    }
    true
}

pub fn match_at(s: &Vec<u8>, p: &Vec<u8>, i: usize) -> (r: bool)
    ensures
        r == matches_at(s@, p@, i as int),
{
    if i > s.len() || p.len() > s.len() - i {
        return false;
    }
    let sn: usize = s.len();
    let n: usize = p.len();
    let mut j: usize = 0;
    while j < n
        invariant
            n == p@.len(),
            sn == s@.len(),
            i + n <= sn,
            j <= n,
            forall|k: int| 0 <= k < j ==> s@[i + k] == p@[k],
        decreases n - j,
    {
        if s[i + j] != p[j] {
            proof {
                assert(s@.subrange(i as int, i + n as int)[j as int] == s@[i + j]);
            }
            return false;
        }
        j = j + 1;
    }
    proof {
        assert(s@.subrange(i as int, i + n as int) =~= p@);
    }
    true
}

pub fn find_first_vec(s: &Vec<u8>, p: &Vec<u8>) -> (r: Option<usize>)
    requires
        p@.len() > 0,
    ensures
        match r {
            Some(j) => find_first(s@, p@) == Some(j as int),
            None => find_first(s@, p@) is None,
        },
{
    if p.len() > s.len() {
        return None;
    }
    let last: usize = s.len() - p.len();
    let mut i: usize = 0;
    while i <= last
        invariant
            0 < p@.len() <= s@.len() <= usize::MAX,
            last == s@.len() - p@.len(),
            i <= last + 1,
            find_first(s@, p@) == find_first_from(s@, p@, i as int),
        decreases last - i + 1,
    {
        if match_at(s, p, i) {
            return Some(i);
        }
        i = i + 1;
    }
    None
}

pub fn find_first_from_vec(s: &Vec<u8>, p: &Vec<u8>, start: usize) -> (r: Option<usize>)
    requires
        p@.len() > 0,
    ensures
        match r {
            Some(j) => find_first_from(s@, p@, start as int) == Some(j as int),
            None => find_first_from(s@, p@, start as int) is None,
        },
{
    if p.len() > s.len() || start > s.len() - p.len() {
        return None;
    }
    let last: usize = s.len() - p.len();
    let mut i: usize = start;
    while i <= last
        invariant
            0 < p@.len() <= s@.len() <= usize::MAX,
            last == s@.len() - p@.len(),
            start <= i <= last + 1,
            find_first_from(s@, p@, start as int) == find_first_from(s@, p@, i as int),
        decreases last - i + 1,
    {
        if match_at(s, p, i) {
            return Some(i);
        }
        i = i + 1;
    }
    None
}

pub fn find_last_vec(s: &Vec<u8>, p: &Vec<u8>) -> (r: Option<usize>)
    requires
        p@.len() > 0,
    ensures
        match r {
            Some(j) => find_last(s@, p@) == Some(j as int),
            None => find_last(s@, p@) is None,
        },
{
    if p.len() > s.len() {
        proof {
            lemma_find_last_before(s@, p@, s@.len() - p@.len());
        }
        return None;
    }
    let mut i: usize = s.len() - p.len();
    loop
        invariant
            0 < p@.len() <= s@.len(),
            i <= s@.len() - p@.len(),
            find_last(s@, p@) == find_last_before(s@, p@, i as int),
        decreases i + 1,
    {
        if match_at(s, p, i) {
            return Some(i);
        }
        if i == 0 {
            proof {
                assert(find_last_before(s@, p@, 0) == find_last_before(s@, p@, -1));
                assert(find_last_before(s@, p@, -1) is None);
            }
            return None;
        }
        i = i - 1;
    }
}

pub fn contains_vec(s: &Vec<u8>, p: &Vec<u8>) -> (r: bool)
    ensures
        r == contains_seq(s@, p@),
{
    if p.len() == 0 {
        proof {
            assert(s@.subrange(0, 0) =~= p@);
            assert(matches_at(s@, p@, 0));
        }
        return true;
    }
    let r = find_first_vec(s, p);
    proof {
        lemma_find_first_from(s@, p@, 0);
        match find_first(s@, p@) {
            Some(_) => {},
            None => {
                assert forall|k: int| !matches_at(s@, p@, k) by {
                    if matches_at(s@, p@, k) {
                        assert(k >= 0);
                    }
                }
            },
        }
    }
    r.is_some()
}

pub fn starts_with(s: &Vec<u8>, p: &Vec<u8>) -> (r: bool)
    ensures
        r == is_prefix_of(p@, s@),
{
    match_at(s, p, 0)
}

pub fn ends_with(s: &Vec<u8>, p: &Vec<u8>) -> (r: bool)
    ensures
        r == is_suffix_of(p@, s@),
{
    if p.len() > s.len() {
        return false;
    }
    match_at(s, p, s.len() - p.len())
}

pub fn is_blank_line(s: &Vec<u8>) -> (r: bool)
    ensures
        r == is_blank(s@),
{
    let n: usize = s.len();
    let mut i: usize = 0;
    while i < n
        invariant
            n == s@.len(),
            i <= n,
            forall|k: int| 0 <= k < i ==> is_space(#[trigger] s@[k]),
        decreases n - i,
    {
        let b = s[i];
        if !(b == 32 || b == 9 || b == 10 || b == 13) {
            return false;
        }
        i = i + 1;
    }
    true
}

pub fn subvec(s: &Vec<u8>, i: usize, j: usize) -> (r: Vec<u8>)
    requires
        i <= j <= s@.len(),
    ensures
        r@ == s@.subrange(i as int, j as int),
{
    let mut r: Vec<u8> = Vec::new();
    let mut k: usize = i;
    while k < j
        invariant
            i <= k <= j <= s@.len(),
            r@ == s@.subrange(i as int, k as int),
        decreases j - k,
    {
        r.push(s[k]);
        proof {
            assert(r@ =~= s@.subrange(i as int, k + 1 as int));
        }
        k = k + 1;
    }
    r
}

pub fn copy_bytes(s: &Vec<u8>) -> (r: Vec<u8>)
    ensures
        r@ == s@,
{
    let r = subvec(s, 0, s.len());
    proof {
        assert(s@.subrange(0, s@.len() as int) =~= s@);
    }
    r
}

pub fn append_bytes(dst: &mut Vec<u8>, src: &Vec<u8>)
    ensures
        final(dst)@ == old(dst)@ + src@,
{
    let n: usize = src.len();
    let mut k: usize = 0;
    while k < n
        invariant
            n == src@.len(),
            k <= n,
            dst@ == old(dst)@ + src@.subrange(0, k as int),
        decreases n - k,
    {
        dst.push(src[k]);
        proof {
            assert(dst@ =~= old(dst)@ + src@.subrange(0, k + 1 as int));
        }
        k = k + 1;
    }
    proof {
        assert(src@.subrange(0, n as int) =~= src@);
    }
}

pub open spec fn spaces(n: int) -> Seq<u8> {
    Seq::new(if n >= 0 { n as nat } else { 0 }, |i: int| 32u8)
}

pub fn push_spaces(dst: &mut Vec<u8>, n: usize)
    ensures
        final(dst)@ == old(dst)@ + spaces(n as int),
{
    let mut k: usize = 0;
    while k < n
        invariant
            k <= n,
            dst@ == old(dst)@ + spaces(k as int),
        decreases n - k,
    {
        dst.push(32u8);
        proof {
            assert(dst@ =~= old(dst)@ + spaces(k + 1 as int));
        }
        k = k + 1;
    }
}

/// All leading occurrences of the byte `b` removed.
pub open spec fn strip_leading(s: Seq<u8>, b: u8) -> Seq<u8>
    decreases s.len(),
{
    if s.len() > 0 && s[0] == b {
        strip_leading(s.drop_first(), b)
    } else {
        s
    }
}

/// All trailing occurrences of the byte `b` removed.
pub open spec fn strip_trailing(s: Seq<u8>, b: u8) -> Seq<u8>
    decreases s.len(),
{
    if s.len() > 0 && s[s.len() - 1] == b {
        strip_trailing(s.drop_last(), b)
    } else {
        s
    }
}

/// Leading `(` and trailing `)` bytes removed, the way a parenthesized
/// amount is reduced to its digits.
pub open spec fn strip_parens(s: Seq<u8>) -> Seq<u8> {
    strip_trailing(strip_leading(s, 40), 41)
}

pub fn strip_parens_vec(s: &Vec<u8>) -> (r: Vec<u8>)
    ensures
        r@ == strip_parens(s@),
{
    let n: usize = s.len();
    proof {
        assert(s@.subrange(0, n as int) =~= s@);
    }
    let mut i: usize = 0;
    while i < n && s[i] == 40
        invariant
            n == s@.len(),
            i <= n,
            strip_leading(s@, 40) == strip_leading(s@.subrange(i as int, n as int), 40),
        decreases n - i,
    {
        proof {
            assert(s@.subrange(i as int, n as int).drop_first() =~= s@.subrange(
                i + 1 as int,
                n as int,
            ));
        }
        i = i + 1;
    }
    proof {
        assert(strip_leading(s@, 40) == s@.subrange(i as int, n as int));
    }
    let mut j: usize = n;
    while j > i && s[j - 1] == 41
        invariant
            n == s@.len(),
            i <= j <= n,
            strip_leading(s@, 40) == s@.subrange(i as int, n as int),
            strip_trailing(s@.subrange(i as int, n as int), 41) == strip_trailing(
                s@.subrange(i as int, j as int),
                41,
            ),
        decreases j,
    {
        proof {
            assert(s@.subrange(i as int, j as int).drop_last() =~= s@.subrange(
                i as int,
                j - 1 as int,
            ));
        }
        j = j - 1;
    }
    proof {
        let t = s@.subrange(i as int, j as int);
        if t.len() > 0 && t[t.len() - 1] == 41 {
            assert(s@[j - 1] == 41);
        }
        assert(strip_trailing(t, 41) == t);
    }
    subvec(s, i, j)
}

/// The prefix `p` removed from the front of `s` as many times as it occurs,
/// the way `trim_start_matches` behaves.
pub open spec fn strip_prefix_rep(s: Seq<u8>, p: Seq<u8>) -> Seq<u8>
    decreases s.len(),
{
    if p.len() > 0 && is_prefix_of(p, s) {
        strip_prefix_rep(s.skip(p.len() as int), p)
    } else {
        s
    }
}

pub fn strip_prefix_rep_vec(s: &Vec<u8>, p: &Vec<u8>) -> (r: Vec<u8>)
    ensures
        r@ == strip_prefix_rep(s@, p@),
{
    let n: usize = s.len();
    if p.len() == 0 {
        return copy_bytes(s);
    }
    proof {
        assert(s@.subrange(0, n as int) =~= s@);
    }
    let mut i: usize = 0;
    while match_at(s, p, i)
        invariant
            n == s@.len(),
            p@.len() > 0,
            i <= n,
            strip_prefix_rep(s@, p@) == strip_prefix_rep(s@.subrange(i as int, n as int), p@),
        decreases n - i,
    {
        proof {
            let t = s@.subrange(i as int, n as int);
            assert(is_prefix_of(p@, t)) by {
                assert(t.subrange(0, p@.len() as int) =~= s@.subrange(
                    i as int,
                    i + p@.len() as int,
                ));
            }
            assert(t.skip(p@.len() as int) =~= s@.subrange(i + p@.len() as int, n as int));
        }
        i = i + p.len();
    }
    proof {
        let t = s@.subrange(i as int, n as int);
        if is_prefix_of(p@, t) {
            assert(matches_at(s@, p@, i as int)) by {
                assert(s@.subrange(i as int, i + p@.len() as int) =~= t.subrange(
                    0,
                    p@.len() as int,
                ));
            }
        }
        assert(strip_prefix_rep(t, p@) == t);
    }
    subvec(s, i, n)
}

} // verus!
