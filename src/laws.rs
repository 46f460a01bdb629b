use vstd::prelude::*;

use crate::engine::{
    NamedTable, TableSlice, start_row, end_row, inverted, is_slice, valid_table, one_outcome,
    all_outcome, combined, grand, lemma_grand_mono,
};
use crate::errors::MyError;
use crate::model::{
    TsColumn, TsCell, rows, prefix, total, cells, sorted, all_values, is_boundary, before,
    lemma_prefix_mono, lemma_boundary_unique, fits,
};
use crate::slicer::{
    BatchView, views_of, pieces, piece, view_rows, span, empty_view, min, max, clip_lo, clip_hi,
};

verus! {

/// Every row holds a timestamp, each one above the one before.
pub open spec fn strictly_increasing(cs: Seq<TsCell>) -> bool {
    &&& all_values(cs)
    &&& forall|i: int, j: int|
        0 <= i < j < cs.len() ==> (#[trigger] cs[i])->Value_0 < (#[trigger] cs[j])->Value_0
}

/// The rows that a sequence of views holds, counted.
pub open spec fn rows_in(vs: Seq<BatchView>) -> nat
    decreases vs.len(),
{
    if vs.len() == 0 {
        0
    } else {
        rows_in(vs.drop_last()) + vs.last().len as nat
    }
}

/// The rows that the slices of the first `k` tables hold, counted.
pub open spec fn slice_rows(slices: Seq<TableSlice>, k: int) -> nat
    decreases k,
{
    if k <= 0 {
        0
    } else {
        slice_rows(slices, k - 1) + rows_in(slices[k - 1].views@)
    }
}

/// The views of `[s, e)` within the first `k` batches cover the logical rows
/// of that range that those batches hold.
pub proof fn lemma_pieces_rows(t: Seq<TsColumn>, s: int, e: int, k: int)
    requires
        0 <= s < e,
        0 <= k <= t.len(),
        fits(t),
    ensures
        view_rows(t, pieces(t, s, e, k)) == span(s, max(s, min(e, prefix(t, k) as int))),
    decreases k,
{
    if k > 0 {
        lemma_pieces_rows(t, s, e, k - 1);
        lemma_prefix_mono(t, k - 1, k);
        lemma_prefix_mono(t, k, t.len() as int);
        let prev = pieces(t, s, e, k - 1);
        if clip_lo(t, s, k - 1) < clip_hi(t, e, k - 1) {
            let p = piece(t, s, e, k - 1);
            let cur = prev.push(p);
            assert(p.batch as int == k - 1);
            assert(p.offset as int == clip_lo(t, s, k - 1) - prefix(t, k - 1));
            assert(p.len as int == clip_hi(t, e, k - 1) - clip_lo(t, s, k - 1));
            assert(cur.drop_last() == prev);
            assert(cur.last() == p);
            assert(view_rows(t, cur) =~= span(s, max(s, min(e, prefix(t, k) as int))));
        } else {
            assert(span(s, max(s, min(e, prefix(t, k - 1) as int))) =~= span(
                s,
                max(s, min(e, prefix(t, k) as int)),
            ));
        }
    }
}

/// The views of a non-empty range cover exactly its logical rows.
pub proof fn lemma_views_rows(t: Seq<TsColumn>, s: int, e: int)
    requires
        0 <= s < e <= total(t),
        fits(t),
    ensures
        view_rows(t, views_of(t, s, e)) == span(s, e),
{
    lemma_pieces_rows(t, s, e, t.len() as int);
}

/// The count of rows in views is the length of the logical rows they cover.
pub proof fn lemma_rows_in(t: Seq<TsColumn>, vs: Seq<BatchView>)
    ensures
        rows_in(vs) == view_rows(t, vs).len(),
    decreases vs.len(),
{
    if vs.len() > 0 {
        lemma_rows_in(t, vs.drop_last());
    }
}

/// The empty view covers no rows.
pub proof fn lemma_empty_view_rows(t: Seq<TsColumn>)
    ensures
        view_rows(t, seq![empty_view()]) == Seq::<int>::empty(),
        rows_in(seq![empty_view()]) == 0,
{
    let vs = seq![empty_view()];
    assert(vs.len() == 1);
    assert(vs.last() == empty_view());
    assert(vs.drop_last() =~= Seq::<BatchView>::empty());
    assert(view_rows(t, vs.drop_last()) == Seq::<int>::empty());
    assert(rows_in(vs.drop_last()) == 0);
    assert(view_rows(t, vs) =~= Seq::<int>::empty());
}

/// The start and end rows that a slice resolves its bounds to.
pub proof fn lemma_resolved(t: Seq<TsColumn>, start: Option<i64>, end: Option<i64>, vs: Seq<BatchView>)
    -> (se: (int, int))
    requires
        is_slice(t, start, end, vs),
        !inverted(start, end),
    ensures
        start_row(cells(t), start, se.0),
        end_row(cells(t), end, se.1),
        vs == views_of(t, se.0, se.1),
{
    choose|s: int, e: int|
        #![trigger start_row(cells(t), start, s), end_row(cells(t), end, e)]
        start_row(cells(t), start, s) && end_row(cells(t), end, e) && vs == views_of(t, s, e)
}

/// Start and end rows resolved from the same bounds over the same sorted rows
/// agree.
pub proof fn lemma_rows_agree(
    cs: Seq<TsCell>,
    start: Option<i64>,
    end: Option<i64>,
    s1: int,
    e1: int,
    s2: int,
    e2: int,
)
    requires
        sorted(cs),
        start_row(cs, start, s1),
        start_row(cs, start, s2),
        end_row(cs, end, e1),
        end_row(cs, end, e2),
    ensures
        s1 == s2,
        e1 == e2,
{
    if let Some(x) = start {
        lemma_boundary_unique(cs, x, false, s1, s2);
    }
    if let Some(y) = end {
        lemma_boundary_unique(cs, y, true, e1, e2);
    }
}

/// Slicing a sorted table twice with the same bounds gives the same views.
pub proof fn law_slice_idempotent(
    t: Seq<TsColumn>,
    start: Option<i64>,
    end: Option<i64>,
    vs1: Seq<BatchView>,
    vs2: Seq<BatchView>,
)
    requires
        sorted(cells(t)),
        is_slice(t, start, end, vs1),
        is_slice(t, start, end, vs2),
    ensures
        vs1 == vs2,
{
    if !inverted(start, end) {
        let (s1, e1) = lemma_resolved(t, start, end, vs1);
        let (s2, e2) = lemma_resolved(t, start, end, vs2);
        lemma_rows_agree(cells(t), start, end, s1, e1, s2, e2);
    }
}

/// With strictly increasing timestamps, the bounds `t_k` and `t_m` (k <= m)
/// give exactly the logical rows k through m.
pub proof fn law_boundary_exact(t: Seq<TsColumn>, k: int, m: int, vs: Seq<BatchView>)
    requires
        strictly_increasing(cells(t)),
        fits(t),
        0 <= k <= m < cells(t).len(),
        is_slice(
            t,
            Some(cells(t)[k]->Value_0),
            Some(cells(t)[m]->Value_0),
            vs,
        ),
    ensures
        view_rows(t, vs) == span(k, m + 1),
{
    let cs = cells(t);
    let start = Some(cs[k]->Value_0);
    let end = Some(cs[m]->Value_0);
    if k < m {
        assert(cs[k]->Value_0 < cs[m]->Value_0);
    }
    assert(!inverted(start, end));
    let (s, e) = lemma_resolved(t, start, end, vs);
    assert(sorted(cs)) by {
        assert forall|i: int, j: int| 0 <= i <= j < cs.len() implies (#[trigger] cs[i])->Value_0
            <= (#[trigger] cs[j])->Value_0 by {
            if i < j {
                assert(cs[i]->Value_0 < cs[j]->Value_0);
            }
        }
    }
    if k > 0 {
        assert(cs[k - 1]->Value_0 < cs[k]->Value_0);
    }
    assert(is_boundary(cs, cs[k]->Value_0, false, k));
    if m + 1 < cs.len() {
        assert(cs[m]->Value_0 < cs[m + 1]->Value_0);
    }
    assert(is_boundary(cs, cs[m]->Value_0, true, m + 1));
    lemma_boundary_unique(cs, cs[k]->Value_0, false, s, k);
    lemma_boundary_unique(cs, cs[m]->Value_0, true, e, m + 1);
    lemma_views_rows(t, k, m + 1);
}

/// An inverted pair of bounds, a start above every timestamp, or an end below
/// every timestamp gives a single empty view that keeps the table's schema.
pub proof fn law_empty_range(t: Seq<TsColumn>, start: Option<i64>, end: Option<i64>, vs: Seq<BatchView>)
    requires
        is_slice(t, start, end, vs),
        inverted(start, end) || (start is Some && forall|i: int|
            0 <= i < cells(t).len() ==> before(#[trigger] cells(t)[i], start->0, false)) || (
        end is Some && forall|i: int|
            0 <= i < cells(t).len() ==> !before(#[trigger] cells(t)[i], end->0, true)),
    ensures
        vs == seq![empty_view()],
{
    if !inverted(start, end) {
        let cs = cells(t);
        let (s, e) = lemma_resolved(t, start, end, vs);
        if start is Some && forall|i: int| 0 <= i < cs.len() ==> before(#[trigger] cs[i], start->0, false) {
            if s < cs.len() {
                assert(before(cs[s], start->0, false));
            }
        } else {
            if e > 0 {
                assert(!before(cs[e - 1], end->0, true));
            }
        }
    }
}

/// An absent start acts as a start at or below the first timestamp, and an
/// absent end as an end at or above the last.
pub proof fn law_absent_bounds(
    t: Seq<TsColumn>,
    x: i64,
    y: i64,
    end: Option<i64>,
    start: Option<i64>,
    vs1: Seq<BatchView>,
    vs2: Seq<BatchView>,
    vs3: Seq<BatchView>,
    vs4: Seq<BatchView>,
)
    requires
        sorted(cells(t)),
        cells(t).len() > 0,
        x <= cells(t)[0]->Value_0,
        y >= cells(t)[cells(t).len() - 1]->Value_0,
        is_slice(t, None, end, vs1),
        is_slice(t, Some(x), end, vs2),
        is_slice(t, start, None, vs3),
        is_slice(t, start, Some(y), vs4),
    ensures
        vs1 == vs2,
        vs3 == vs4,
{
    let cs = cells(t);
    let n = cs.len() as int;
    assert(is_boundary(cs, x, false, 0));
    assert(cs[n - 1]->Value_0 <= y);
    assert(is_boundary(cs, y, true, n));
    let (s1, e1) = lemma_resolved(t, None, end, vs1);
    if !inverted(Some(x), end) {
        let (s2, e2) = lemma_resolved(t, Some(x), end, vs2);
        lemma_rows_agree(cs, Some(x), end, s1, e1, s2, e2);
    } else {
        let e = end->0;
        assert(e < x);
        if e1 > 0 {
            assert(cs[0]->Value_0 <= cs[e1 - 1]->Value_0);
        }
        assert(e1 == 0);
    }
    if !inverted(start, Some(y)) {
        let (s3, e3) = lemma_resolved(t, start, None, vs3);
        let (s4, e4) = lemma_resolved(t, start, Some(y), vs4);
        lemma_rows_agree(cs, start, Some(y), s3, e3, s4, e4);
    } else {
        let s = start->0;
        assert(y < s);
        let (s3, e3) = lemma_resolved(t, start, None, vs3);
        if s3 < n {
            assert(cs[s3]->Value_0 <= cs[n - 1]->Value_0);
        }
        assert(s3 == n);
    }
}

/// The views of all rows of a table whose batches each have a row are its
/// batches whole, in order.
pub proof fn lemma_whole_pieces(t: Seq<TsColumn>, k: int)
    requires
        0 <= k <= t.len(),
        total(t) > 0,
        forall|b: int| 0 <= b < t.len() ==> rows(#[trigger] t[b]) > 0,
    ensures
        pieces(t, 0, total(t) as int, k) == Seq::new(
            k as nat,
            |b: int| BatchView { batch: b as usize, offset: 0, len: rows(t[b]) as usize },
        ),
    decreases k,
{
    if k > 0 {
        lemma_whole_pieces(t, k - 1);
        lemma_prefix_mono(t, k, t.len() as int);
        assert(pieces(t, 0, total(t) as int, k) =~= Seq::new(
            k as nat,
            |b: int| BatchView { batch: b as usize, offset: 0, len: rows(t[b]) as usize },
        ));
    }
}

/// Without bounds, a table whose batches each have a row comes back as its
/// batches, whole and in order.
pub proof fn law_whole_table(t: Seq<TsColumn>, vs: Seq<BatchView>)
    requires
        total(t) > 0,
        total(t) <= usize::MAX,
        forall|b: int| 0 <= b < t.len() ==> rows(#[trigger] t[b]) > 0,
        is_slice(t, None, None, vs),
    ensures
        vs == Seq::new(
            t.len(),
            |b: int| BatchView { batch: b as usize, offset: 0, len: rows(t[b]) as usize },
        ),
{
    let (s, e) = lemma_resolved(t, None, None, vs);
    lemma_whole_pieces(t, t.len() as int);
}

/// Two tables with the same rows in the same order, cut into batches
/// differently, give slices over the same logical rows.
pub proof fn law_batching_invariant(
    t1: Seq<TsColumn>,
    t2: Seq<TsColumn>,
    start: Option<i64>,
    end: Option<i64>,
    vs1: Seq<BatchView>,
    vs2: Seq<BatchView>,
)
    requires
        cells(t1) == cells(t2),
        sorted(cells(t1)),
        fits(t1),
        fits(t2),
        is_slice(t1, start, end, vs1),
        is_slice(t2, start, end, vs2),
    ensures
        view_rows(t1, vs1) == view_rows(t2, vs2),
{
    lemma_empty_view_rows(t1);
    lemma_empty_view_rows(t2);
    if !inverted(start, end) {
        let (s1, e1) = lemma_resolved(t1, start, end, vs1);
        let (s2, e2) = lemma_resolved(t2, start, end, vs2);
        lemma_rows_agree(cells(t1), start, end, s1, e1, s2, e2);
        if !(s1 >= total(t1) || e1 <= 0 || s1 >= e1) {
            lemma_views_rows(t1, s1, e1);
            lemma_views_rows(t2, s2, e2);
        }
    }
}

/// The rows of a table's unbounded slice number the table's rows.
pub proof fn law_row_count_table(t: Seq<TsColumn>, vs: Seq<BatchView>)
    requires
        is_slice(t, None, None, vs),
        fits(t),
    ensures
        rows_in(vs) == total(t),
{
    let (s, e) = lemma_resolved(t, None, None, vs);
    lemma_rows_in(t, vs);
    if total(t) > 0 {
        lemma_views_rows(t, s, e);
    } else {
        lemma_empty_view_rows(t);
    }
}

/// The total row count equals the rows of every table's unbounded slice.
pub proof fn law_row_count(tables: Seq<NamedTable>, slices: Seq<TableSlice>)
    requires
        slices.len() == tables.len(),
        grand(tables, tables.len() as int) <= usize::MAX,
        forall|i: int| 0 <= i < tables.len() ==> (#[trigger] tables[i]).batches@.len() <= usize::MAX,
        forall|i: int|
            0 <= i < tables.len() ==> is_slice(
                #[trigger] tables[i].batches@,
                None,
                None,
                slices[i].views@,
            ),
    ensures
        grand(tables, tables.len() as int) == slice_rows(slices, slices.len() as int),
{
    lemma_row_count_upto(tables, slices, tables.len() as int);
}

proof fn lemma_row_count_upto(tables: Seq<NamedTable>, slices: Seq<TableSlice>, k: int)
    requires
        slices.len() == tables.len(),
        grand(tables, tables.len() as int) <= usize::MAX,
        forall|i: int| 0 <= i < tables.len() ==> (#[trigger] tables[i]).batches@.len() <= usize::MAX,
        0 <= k <= tables.len(),
        forall|i: int|
            0 <= i < tables.len() ==> is_slice(
                #[trigger] tables[i].batches@,
                None,
                None,
                slices[i].views@,
            ),
    ensures
        grand(tables, k) == slice_rows(slices, k),
    decreases k,
{
    if k > 0 {
        lemma_row_count_upto(tables, slices, k - 1);
        lemma_grand_mono(tables, k, tables.len() as int);
        assert(tables[k - 1].batches@.len() <= usize::MAX);
        law_row_count_table(tables[k - 1].batches@, slices[k - 1].views@);
    }
}

/// Slicing the tables one by one and gathering the results, in whatever order
/// they were computed, gives what slicing them all at once may give.
pub proof fn law_gathered_outcome(
    tables: Seq<NamedTable>,
    start: Option<i64>,
    end: Option<i64>,
    results: Seq<Result<TableSlice, MyError>>,
    r: Result<Vec<TableSlice>, MyError>,
)
    requires
        results.len() == tables.len(),
        forall|i: int| 0 <= i < tables.len() ==> one_outcome(#[trigger] tables[i], start, end, results[i]),
        combined(results, r),
    ensures
        all_outcome(tables, start, end, r),
{
    match r {
        Ok(v) => {
            assert forall|i: int| 0 <= i < tables.len() implies one_outcome(
                #[trigger] tables[i],
                start,
                end,
                Ok::<TableSlice, MyError>(v@[i]),
            ) by {
                assert(results[i] == Ok::<TableSlice, MyError>(v@[i]));
            }
        },
        Err(err) => {
            let i = choose|i: int|
                0 <= i < results.len() && #[trigger] results[i] == Err::<TableSlice, MyError>(err)
                    && forall|j: int| 0 <= j < i ==> #[trigger] results[j] is Ok;
            assert(one_outcome(tables[i], start, end, results[i]));
            if forall|j: int| 0 <= j < tables.len() ==> valid_table(#[trigger] tables[j].batches@) {
                assert(valid_table(tables[i].batches@));
            }
        },
    }
}

/// When one table has no batch and every other is either the same or valid,
/// slicing them all fails with an index error.
pub proof fn law_empty_table_fails(
    tables: Seq<NamedTable>,
    start: Option<i64>,
    end: Option<i64>,
    r: Result<Vec<TableSlice>, MyError>,
)
    requires
        exists|i: int| 0 <= i < tables.len() && (#[trigger] tables[i]).batches@.len() == 0,
        forall|i: int|
            0 <= i < tables.len() ==> (#[trigger] tables[i]).batches@.len() == 0 || valid_table(
                tables[i].batches@,
            ),
        all_outcome(tables, start, end, r),
    ensures
        r matches Err(err) && err is IndexError,
{
    let i = choose|i: int| 0 <= i < tables.len() && (#[trigger] tables[i]).batches@.len() == 0;
    match r {
        Ok(v) => {
            assert(one_outcome(tables[i], start, end, Ok::<TableSlice, MyError>(v@[i])));
        },
        Err(err) => {
            let j = choose|j: int|
                0 <= j < tables.len() && one_outcome(
                    #[trigger] tables[j],
                    start,
                    end,
                    Err::<TableSlice, MyError>(err),
                );
            assert(tables[j].batches@.len() == 0 || valid_table(tables[j].batches@));
        },
    }
}

} // verus!
