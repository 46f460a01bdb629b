use vstd::prelude::*;

verus! {

/// What the slicing logic reads of one batch: its timestamp column.
pub enum TsColumn {
    /// The column holds nanosecond timestamps; `None` marks a null cell.
    Nanos(Vec<Option<i64>>),
    /// The column has another type; the batch has this many rows.
    Other(usize),
}

/// What reading the timestamp of one row gives.
pub enum TsCell {
    Value(i64),
    Null,
    WrongType,
}

impl TsColumn {
    /// The number of rows of the batch.
    pub fn num_rows(&self) -> (r: usize)
        ensures
            r == rows(*self),
    {
        match self {
            TsColumn::Nanos(v) => v.len(),
            TsColumn::Other(n) => *n,
        }
    }
}

pub open spec fn rows(c: TsColumn) -> nat {
    match c {
        TsColumn::Nanos(v) => v@.len(),
        TsColumn::Other(n) => n as nat,
    }
}

/// The timestamp of local row `j` of a batch.
pub open spec fn cell(c: TsColumn, j: int) -> TsCell {
    match c {
        TsColumn::Nanos(v) => match v@[j] {
            Some(x) => TsCell::Value(x),
            None => TsCell::Null,
        },
        TsColumn::Other(_) => TsCell::WrongType,
    }
}

/// Rows in the first `k` batches of a table.
pub open spec fn prefix(t: Seq<TsColumn>, k: int) -> nat
    decreases k,
{
    if k <= 0 {
        0
    } else {
        prefix(t, k - 1) + rows(t[k - 1])
    }
}

/// Rows in the whole table.
pub open spec fn total(t: Seq<TsColumn>) -> nat {
    prefix(t, t.len() as int)
}

/// The timestamp of logical row `i` among the first `k` batches.
pub open spec fn cell_in(t: Seq<TsColumn>, k: int, i: int) -> TsCell
    decreases k,
{
    if k <= 0 {
        TsCell::WrongType
    } else if i >= prefix(t, k - 1) {
        cell(t[k - 1], i - prefix(t, k - 1))
    } else {
        cell_in(t, k - 1, i)
    }
}

/// The timestamps of a table, row by row, across its batches.
pub open spec fn cells(t: Seq<TsColumn>) -> Seq<TsCell> {
    Seq::new(total(t), |i: int| cell_in(t, t.len() as int, i))
}

/// The batch count and the row count of a table fit in a `usize`, as they do
/// for every table held in a `Vec` that can be sliced.
pub open spec fn fits(t: Seq<TsColumn>) -> bool {
    t.len() <= usize::MAX && total(t) <= usize::MAX
}

pub open spec fn all_values(cs: Seq<TsCell>) -> bool {
    forall|i: int| 0 <= i < cs.len() ==> #[trigger] cs[i] is Value
}

/// Every row holds a timestamp, in ascending order.
pub open spec fn sorted(cs: Seq<TsCell>) -> bool {
    &&& all_values(cs)
    &&& forall|i: int, j: int|
        0 <= i <= j < cs.len() ==> (#[trigger] cs[i])->Value_0 <= (#[trigger] cs[j])->Value_0
}

/// A row that a search for `x` passes over: its timestamp is below `x`, or
/// equal to it when `past_ties` holds.
pub open spec fn before(c: TsCell, x: i64, past_ties: bool) -> bool {
    c is Value && (c->Value_0 < x || (past_ties && c->Value_0 == x))
}

/// `r` splits the rows into those that a search for `x` passes over and the
/// rest: the insertion point of `x`.
pub open spec fn is_boundary(cs: Seq<TsCell>, x: i64, past_ties: bool, r: int) -> bool {
    &&& 0 <= r <= cs.len()
    &&& (r == 0 || before(cs[r - 1], x, past_ties))
    &&& (r == cs.len() || (cs[r] is Value && !before(cs[r], x, past_ties)))
}

pub proof fn lemma_prefix_mono(t: Seq<TsColumn>, j: int, k: int)
    requires
        0 <= j <= k <= t.len(),
    ensures
        prefix(t, j) <= prefix(t, k),
    decreases k - j,
{
    if j < k {
        lemma_prefix_mono(t, j, k - 1);
    }
}

/// A row inside batch `k` reads the same among any longer run of batches.
pub proof fn lemma_cell_in_batch(t: Seq<TsColumn>, k: int, m: int, i: int)
    requires
        0 <= k < m <= t.len(),
        prefix(t, k) <= i < prefix(t, k + 1),
    ensures
        cell_in(t, m, i) == cell(t[k], i - prefix(t, k)),
    decreases m - k,
{
    if m > k + 1 {
        lemma_prefix_mono(t, k + 1, m - 1);
        lemma_cell_in_batch(t, k, m - 1, i);
    }
}

/// In a sorted table an insertion point is unique.
pub proof fn lemma_boundary_unique(cs: Seq<TsCell>, x: i64, past_ties: bool, r1: int, r2: int)
    requires
        sorted(cs),
        is_boundary(cs, x, past_ties, r1),
        is_boundary(cs, x, past_ties, r2),
    ensures
        r1 == r2,
{
    if r1 < r2 {
        assert(cs[r1]->Value_0 <= cs[r2 - 1]->Value_0);
    } else if r2 < r1 {
        assert(cs[r2]->Value_0 <= cs[r1 - 1]->Value_0);
    }
}

} // verus!
