//! Transaction grouper: maximal runs of consecutive rows sharing `(date,
//! title)` byte-for-byte become one transaction group, in original order.
use crate::model::{view_groups, view_rows, GroupV, Row, RowV, TransactionGroup};
use crate::text::{copy_bytes, seq_eq};
use vstd::prelude::*;

verus! {

/// Two rows belong to the same transaction: equal date and title.
pub open spec fn same_key(a: RowV, b: RowV) -> bool {
    a.date == b.date && a.title == b.title
}

/// First index at or after `j` whose row no longer shares the key of
/// `rows[s]`; the length of the sequence when the run reaches its end.
pub open spec fn run_end(rows: Seq<RowV>, s: int, j: int) -> int
    decreases rows.len() - j,
{
    if j < 0 || j >= rows.len() {
        rows.len() as int
    } else if !same_key(rows[j], rows[s]) {
        j
    } else {
        run_end(rows, s, j + 1)
    }
}

pub proof fn lemma_run_end_bounds(rows: Seq<RowV>, s: int, j: int)
    requires
        0 <= j <= rows.len(),
    ensures
        j <= run_end(rows, s, j) <= rows.len(),
        forall|k: int| j <= k < run_end(rows, s, j) ==> same_key(#[trigger] rows[k], rows[s]),
        run_end(rows, s, j) < rows.len() ==> !same_key(rows[run_end(rows, s, j)], rows[s]),
    decreases rows.len() - j,
{
    if j < rows.len() && same_key(rows[j], rows[s]) {
        lemma_run_end_bounds(rows, s, j + 1);
    }
}

/// The group formed by rows `[s, e)`.
pub open spec fn group_of(rows: Seq<RowV>, s: int, e: int) -> GroupV {
    GroupV { date: rows[s].date, title: rows[s].title, rows: rows.subrange(s, e) }
}

/// The groups of `rows[i..]`: one group per maximal run of equal keys.
pub open spec fn spec_groups_from(rows: Seq<RowV>, i: int) -> Seq<GroupV>
    decreases rows.len() - i,
    via spec_groups_from_decreases
{
    if i < 0 || i >= rows.len() {
        Seq::empty()
    } else {
        seq![group_of(rows, i, run_end(rows, i, i + 1))] + spec_groups_from(
            rows,
            run_end(rows, i, i + 1),
        )
    }
}

#[via_fn]
proof fn spec_groups_from_decreases(rows: Seq<RowV>, i: int) {
    if 0 <= i < rows.len() {
        lemma_run_end_bounds(rows, i, i + 1);
    }
}

pub open spec fn spec_groups(rows: Seq<RowV>) -> Seq<GroupV> {
    spec_groups_from(rows, 0)
}

/// A copy of `rows[i..j]`.
fn copy_rows_range(rows: &Vec<Row>, i: usize, j: usize) -> (r: Vec<Row>)
    requires
        i <= j <= rows@.len(),
    ensures
        view_rows(r@) == view_rows(rows@).subrange(i as int, j as int),
{
    let ghost rv = view_rows(rows@);
    let mut r: Vec<Row> = Vec::new();
    let mut k: usize = i;
    proof {
        assert(view_rows(r@) =~= rv.subrange(i as int, i as int));
    }
    while k < j
        invariant
            i <= k <= j <= rows@.len(),
            rv == view_rows(rows@),
            r@.len() == k - i,
            view_rows(r@) == rv.subrange(i as int, k as int),
        decreases j - k,
    {
        let ghost og = r@;
        let rc = crate::model::row_copy(&rows[k]);
        proof {
            assert(rc@ == rv[k as int]);
        }
        r.push(rc);
        proof {
            assert(view_rows(r@) =~= rv.subrange(i as int, (k + 1) as int)) by {
                assert(r@ == og.push(rc));
                assert forall|l: int| 0 <= l < r@.len() implies view_rows(r@)[l] == rv.subrange(
                    i as int,
                    (k + 1) as int,
                )[l] by {
                    if l < og.len() {
                        assert(view_rows(og)[l] == rv.subrange(i as int, k as int)[l]);
                    } else {
                        assert(r@[l] == rc);
                    }
                }
            }
        }
        k = k + 1;
    }
    r
}

/// Groups the row stream into transactions. Consecutive rows sharing
/// `(date, title)` byte-for-byte land in one group, in original order; a key
/// mismatch closes the group and opens a new one.
pub fn group_rows(rows: &Vec<Row>) -> (gs: Vec<TransactionGroup>)
    ensures
        view_groups(gs@) == spec_groups(view_rows(rows@)),
{
    let ghost rv = view_rows(rows@);
    let n: usize = rows.len();
    let mut gs: Vec<TransactionGroup> = Vec::new();
    let mut i: usize = 0;
    while i < n
        invariant
            n == rows@.len(),
            rv == view_rows(rows@),
            i <= n,
            spec_groups(rv) == view_groups(gs@) + spec_groups_from(rv, i as int),
        decreases n - i,
    {
        let mut j: usize = i + 1;
        while j < n && seq_eq(&rows[j].date, &rows[i].date) && seq_eq(&rows[j].title, &rows[i].title)
            invariant
                n == rows@.len(),
                rv == view_rows(rows@),
                i < j <= n,
                run_end(rv, i as int, i + 1 as int) == run_end(rv, i as int, j as int),
            decreases n - j,
        {
            j = j + 1;
        }
        proof {
            assert(run_end(rv, i as int, j as int) == j as int);
        }
        let grows = copy_rows_range(rows, i, j);
        let g = TransactionGroup {
            date: copy_bytes(&rows[i].date),
            title: copy_bytes(&rows[i].title),
            rows: grows,
        };
        proof {
            assert(g@ =~= group_of(rv, i as int, j as int));
            assert(view_groups(gs@.push(g)) =~= view_groups(gs@) + seq![g@]);
            assert((view_groups(gs@) + seq![g@]) + spec_groups_from(rv, j as int)
                =~= view_groups(gs@) + (seq![g@] + spec_groups_from(rv, j as int)));
        }
        gs.push(g);
        i = j;
    }
    proof {
        assert(view_groups(gs@) + spec_groups_from(rv, n as int) =~= view_groups(gs@));
    }
    gs
}

/// The rows of a sequence of groups, concatenated in order.
pub open spec fn groups_rows(gs: Seq<GroupV>) -> Seq<RowV>
    decreases gs.len(),
{
    if gs.len() == 0 {
        Seq::empty()
    } else {
        gs[0].rows + groups_rows(gs.drop_first())
    }
}

proof fn lemma_groups_flatten_from(rows: Seq<RowV>, i: int)
    requires
        0 <= i <= rows.len(),
    ensures
        groups_rows(spec_groups_from(rows, i)) == rows.subrange(i, rows.len() as int),
    decreases rows.len() - i,
{
    if i == rows.len() {
        assert(rows.subrange(i, rows.len() as int) =~= Seq::<RowV>::empty());
    } else {
        let e = run_end(rows, i, i + 1);
        lemma_run_end_bounds(rows, i, i + 1);
        lemma_groups_flatten_from(rows, e);
        let gs = spec_groups_from(rows, i);
        assert(gs.drop_first() =~= spec_groups_from(rows, e));
        assert(rows.subrange(i, rows.len() as int) =~= rows.subrange(i, e) + rows.subrange(
            e,
            rows.len() as int,
        ));
    }
}

/// Grouping preserves the rows and their order: concatenating the rows of
/// the groups gives back the original row stream, so every row lands in
/// exactly one group.
pub proof fn lemma_groups_flatten(rows: Seq<RowV>)
    ensures
        groups_rows(spec_groups(rows)) == rows,
{
    lemma_groups_flatten_from(rows, 0);
    assert(rows.subrange(0, rows.len() as int) =~= rows);
}

proof fn lemma_groups_structure_from(rows: Seq<RowV>, i: int)
    requires
        0 <= i <= rows.len(),
    ensures
        forall|g: int| 0 <= g < spec_groups_from(rows, i).len() ==> {
            let gr = #[trigger] spec_groups_from(rows, i)[g];
            gr.rows.len() > 0 && (forall|k: int| 0 <= k < gr.rows.len() ==> (#[trigger] gr.rows[k]).date
                == gr.date && gr.rows[k].title == gr.title)
        },
        forall|g: int| 0 <= g < spec_groups_from(rows, i).len() - 1 ==> !(
        (#[trigger] spec_groups_from(rows, i)[g]).date == spec_groups_from(rows, i)[g + 1].date
            && spec_groups_from(rows, i)[g].title == spec_groups_from(rows, i)[g + 1].title),
    decreases rows.len() - i,
{
    if 0 <= i < rows.len() {
        let e = run_end(rows, i, i + 1);
        lemma_run_end_bounds(rows, i, i + 1);
        lemma_groups_structure_from(rows, e);
        let first = group_of(rows, i, e);
        assert(first.rows.len() > 0);
        assert(forall|k: int| 0 <= k < first.rows.len() ==> (#[trigger] first.rows[k]).date
            == first.date && first.rows[k].title == first.title) by {
            assert(forall|k: int| 0 <= k < e - i ==> first.rows[k] == rows[i + k]);
            assert(same_key(rows[i], rows[i]));
        }
        if e < rows.len() {
            let rest = spec_groups_from(rows, e);
            assert(rest[0] == group_of(rows, e, run_end(rows, e, e + 1)));
            assert(!same_key(rows[e], rows[i]));
        }
    }
}

/// Groups are non-empty, every row in a group carries the group's own date
/// and title, and adjacent groups differ in key — so a group is a maximal
/// run, and rows that are not adjacent are never merged.
pub proof fn lemma_groups_structure(rows: Seq<RowV>)
    ensures
        forall|g: int| 0 <= g < spec_groups(rows).len() ==> {
            let gr = #[trigger] spec_groups(rows)[g];
            gr.rows.len() > 0 && (forall|k: int| 0 <= k < gr.rows.len() ==> (#[trigger] gr.rows[k]).date
                == gr.date && gr.rows[k].title == gr.title)
        },
        forall|g: int| 0 <= g < spec_groups(rows).len() - 1 ==> !((#[trigger] spec_groups(rows)[g]).date
            == spec_groups(rows)[g + 1].date && spec_groups(rows)[g].title == spec_groups(
            rows,
        )[g + 1].title),
{
    lemma_groups_structure_from(rows, 0);
}

} // verus!

