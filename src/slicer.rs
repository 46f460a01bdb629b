use vstd::prelude::*;

use crate::model::{TsColumn, rows, prefix, total, lemma_prefix_mono};

verus! {

/// A zero-copy view of part of one batch: `len` rows from local row `offset`
/// of batch number `batch`.
#[derive(Debug, Clone, Copy, PartialEq, Eq, Structural)]
pub struct BatchView {
    pub batch: usize,
    pub offset: usize,
    pub len: usize,
}

pub open spec fn min(a: int, b: int) -> int {
    if a <= b { a } else { b }
}

pub open spec fn max(a: int, b: int) -> int {
    if a >= b { a } else { b }
}

/// The first logical row of batch `k` that lies in `[s, e)`.
pub open spec fn clip_lo(t: Seq<TsColumn>, s: int, k: int) -> int {
    max(s, prefix(t, k) as int)
}

/// One past the last logical row of batch `k` that lies in `[s, e)`.
pub open spec fn clip_hi(t: Seq<TsColumn>, e: int, k: int) -> int {
    min(e, prefix(t, k + 1) as int)
}

/// The part of batch `k` that lies in `[s, e)`.
pub open spec fn piece(t: Seq<TsColumn>, s: int, e: int, k: int) -> BatchView {
    BatchView {
        batch: k as usize,
        offset: (clip_lo(t, s, k) - prefix(t, k)) as usize,
        len: (clip_hi(t, e, k) - clip_lo(t, s, k)) as usize,
    }
}

/// The views of `[s, e)` within the first `k` batches: one for each batch
/// that shares at least one row with the range, in batch order.
pub open spec fn pieces(t: Seq<TsColumn>, s: int, e: int, k: int) -> Seq<BatchView>
    decreases k,
{
    if k <= 0 {
        seq![]
    } else if clip_lo(t, s, k - 1) < clip_hi(t, e, k - 1) {
        pieces(t, s, e, k - 1).push(piece(t, s, e, k - 1))
    } else {
        pieces(t, s, e, k - 1)
    }
}

/// The view that stands for an empty range: no rows of the first batch, so
/// that the result still carries the table's schema.
pub open spec fn empty_view() -> BatchView {
    BatchView { batch: 0, offset: 0, len: 0 }
}

/// The views that make up the logical rows `[s, e)` of a table.
pub open spec fn views_of(t: Seq<TsColumn>, s: int, e: int) -> Seq<BatchView> {
    if s >= total(t) || e <= 0 || s >= e {
        seq![empty_view()]
    } else {
        pieces(t, s, e, t.len() as int)
    }
}

/// The logical rows that a sequence of views covers, in order.
pub open spec fn view_rows(t: Seq<TsColumn>, vs: Seq<BatchView>) -> Seq<int>
    decreases vs.len(),
{
    if vs.len() == 0 {
        seq![]
    } else {
        let v = vs.last();
        view_rows(t, vs.drop_last()) + Seq::new(
            v.len as nat,
            |j: int| prefix(t, v.batch as int) + v.offset + j,
        )
    }
}

/// The logical indices `a, a + 1, ..., b - 1`.
pub open spec fn span(a: int, b: int) -> Seq<int> {
    Seq::new(if a <= b { (b - a) as nat } else { 0 }, |j: int| a + j)
}

/// Each view lies within its batch.
pub open spec fn views_in_bounds(t: Seq<TsColumn>, vs: Seq<BatchView>) -> bool {
    forall|j: int|
        0 <= j < vs.len() ==> (#[trigger] vs[j]).batch < t.len() && vs[j].offset + vs[j].len
            <= rows(t[vs[j].batch as int])
}

/// The views of the logical rows `[start_logical, end_logical)` of a table,
/// in batch order: a tail of the first batch that the range touches, the
/// batches inside it whole, and a head of the last. An empty range gives a
/// single empty view of the first batch.
pub fn slice_range(batches: &Vec<TsColumn>, start_logical: usize, end_logical: usize) -> (r: Vec<
    BatchView,
>)
    requires
        batches@.len() > 0,
        total(batches@) <= usize::MAX,
    ensures
        r@ == views_of(batches@, start_logical as int, end_logical as int),
        views_in_bounds(batches@, r@),
        start_logical < end_logical <= total(batches@) ==> view_rows(batches@, r@) == span(
            start_logical as int,
            end_logical as int,
        ),
{
    let ghost t = batches@;
    let ghost s = start_logical as int;
    let ghost e = end_logical as int;
    let mut out: Vec<BatchView> = Vec::new();
    if start_logical >= crate::locator::get_length(batches) || end_logical == 0 || start_logical
        >= end_logical {
        out.push(BatchView { batch: 0, offset: 0, len: 0 });
        return out;
    }
    let mut offset: usize = 0;
    let mut k: usize = 0;
    while k < batches.len()
        invariant
            t == batches@,
            s == start_logical,
            e == end_logical,
            s < e,
            s < total(t),
            total(t) <= usize::MAX,
            k <= t.len(),
            offset == prefix(t, k as int),
            out@ == pieces(t, s, e, k as int),
            views_in_bounds(t, out@),
            view_rows(t, out@) == span(s, max(s, min(e, prefix(t, k as int) as int))),
        decreases t.len() - k,
    {
        proof {
            lemma_prefix_mono(t, k + 1, t.len() as int);
        }
        let n = batches[k].num_rows();
        let end_of_batch = offset + n;
        let lo = if start_logical > offset { start_logical } else { offset };
        let hi = if end_logical < end_of_batch { end_logical } else { end_of_batch };
        let ghost old_out = out@;
        if lo < hi {
            let v = BatchView { batch: k, offset: lo - offset, len: hi - lo };
            out.push(v);
            proof {
                assert(out@.drop_last() == old_out);
                assert(view_rows(t, out@) =~= span(s, max(s, min(e, prefix(t, k + 1) as int))));
            }
        } else {
            proof {
                assert(span(s, max(s, min(e, prefix(t, k as int) as int))) =~= span(
                    s,
                    max(s, min(e, prefix(t, k + 1) as int)),
                ));
            }
        }
        offset = end_of_batch;
        k = k + 1;
    }
    out
}

} // verus!
