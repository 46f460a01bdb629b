use vstd::prelude::*;

use crate::errors::MyError;
use crate::locator::{binary_search_ts, get_length};
use crate::model::{TsColumn, TsCell, total, cells, all_values, is_boundary, lemma_prefix_mono};
use crate::slicer::{BatchView, views_of, empty_view, slice_range};

verus! {

/// A named table: its batches, in order, each given by its timestamp column.
pub struct NamedTable {
    pub name: String,
    pub batches: Vec<TsColumn>,
}

/// The slice of one named table.
pub struct TableSlice {
    pub name: String,
    pub views: Vec<BatchView>,
}

/// The first logical row of a slice: the insertion point of `start`, ties
/// included, or row 0 without a start.
pub open spec fn start_row(cs: Seq<TsCell>, start: Option<i64>, s: int) -> bool {
    match start {
        None => s == 0,
        Some(x) => is_boundary(cs, x, false, s),
    }
}

/// One past the last logical row of a slice: the first row whose timestamp is
/// above `end`, or the end of the table without an end.
pub open spec fn end_row(cs: Seq<TsCell>, end: Option<i64>, e: int) -> bool {
    match end {
        None => e == cs.len(),
        Some(x) => is_boundary(cs, x, true, e),
    }
}

/// A start bound above the end bound.
pub open spec fn inverted(start: Option<i64>, end: Option<i64>) -> bool {
    start is Some && end is Some && start->0 > end->0
}

/// A table that can be sliced without error: it has a batch, and every row
/// holds a nanosecond timestamp.
pub open spec fn valid_table(t: Seq<TsColumn>) -> bool {
    t.len() > 0 && all_values(cells(t))
}

/// `vs` is the slice of table `t` between the bounds.
pub open spec fn is_slice(t: Seq<TsColumn>, start: Option<i64>, end: Option<i64>, vs: Seq<BatchView>) -> bool {
    if inverted(start, end) {
        vs == seq![empty_view()]
    } else {
        exists|s: int, e: int|
            #![trigger start_row(cells(t), start, s), end_row(cells(t), end, e)]
            start_row(cells(t), start, s) && end_row(cells(t), end, e) && vs == views_of(t, s, e)
    }
}

/// The error `err` names a fault that table `t` has.
pub open spec fn fault_of(t: Seq<TsColumn>, err: MyError) -> bool {
    &&& (err is IndexError <==> t.len() == 0)
    &&& (err is NullValueError ==> exists|i: int|
        0 <= i < cells(t).len() && #[trigger] cells(t)[i] is Null)
    &&& (err is ColumnTypeError ==> exists|i: int|
        0 <= i < cells(t).len() && #[trigger] cells(t)[i] is WrongType)
    &&& !(err is DateError)
}

/// What slicing one named table may give: its slice under its name, or an
/// error that names a fault of the table; never an error for a valid table.
pub open spec fn one_outcome(
    nt: NamedTable,
    start: Option<i64>,
    end: Option<i64>,
    r: Result<TableSlice, MyError>,
) -> bool {
    &&& match r {
        Ok(ts) => ts.name == nt.name && nt.batches@.len() > 0 && is_slice(
            nt.batches@,
            start,
            end,
            ts.views@,
        ),
        Err(err) => fault_of(nt.batches@, err) && !valid_table(nt.batches@),
    }
    &&& (valid_table(nt.batches@) ==> r is Ok)
}

/// What slicing every table may give: each table's slice, in order, or the
/// error of one table that has a fault; never an error when all are valid.
pub open spec fn all_outcome(
    ts: Seq<NamedTable>,
    start: Option<i64>,
    end: Option<i64>,
    r: Result<Vec<TableSlice>, MyError>,
) -> bool {
    &&& match r {
        Ok(v) => v@.len() == ts.len() && forall|i: int|
            0 <= i < ts.len() ==> one_outcome(
                #[trigger] ts[i],
                start,
                end,
                Ok::<TableSlice, MyError>(v@[i]),
            ),
        Err(err) => exists|i: int|
            0 <= i < ts.len() && one_outcome(
                #[trigger] ts[i],
                start,
                end,
                Err::<TableSlice, MyError>(err),
            ),
    }
    &&& ((forall|i: int| 0 <= i < ts.len() ==> valid_table(#[trigger] ts[i].batches@)) ==> r is Ok)
}

/// `r` gathers per-table results: all of them when every one succeeded,
/// else the error of the first that failed.
pub open spec fn combined(results: Seq<Result<TableSlice, MyError>>, r: Result<Vec<TableSlice>, MyError>) -> bool {
    &&& (r matches Ok(v) ==> v@.len() == results.len() && forall|i: int|
        0 <= i < results.len() ==> #[trigger] results[i] == Ok::<TableSlice, MyError>(v@[i]))
    &&& (r matches Err(err) ==> exists|i: int|
        0 <= i < results.len() && #[trigger] results[i] == Err::<TableSlice, MyError>(err)
            && forall|j: int| 0 <= j < i ==> #[trigger] results[j] is Ok)
    &&& ((forall|i: int| 0 <= i < results.len() ==> #[trigger] results[i] is Ok) ==> r is Ok)
}

/// Rows in the first `k` tables.
pub open spec fn grand(ts: Seq<NamedTable>, k: int) -> nat
    decreases k,
{
    if k <= 0 {
        0
    } else {
        grand(ts, k - 1) + total(ts[k - 1].batches@)
    }
}

pub proof fn lemma_grand_mono(ts: Seq<NamedTable>, j: int, k: int)
    requires
        0 <= j <= k <= ts.len(),
    ensures
        grand(ts, j) <= grand(ts, k),
    decreases k - j,
{
    if j < k {
        lemma_grand_mono(ts, j, k - 1);
    }
}

/// The slice of one table between two optional timestamps, both inclusive.
pub fn slice_table(batches: &Vec<TsColumn>, start: Option<i64>, end: Option<i64>) -> (r: Result<
    Vec<BatchView>,
    MyError,
>)
    requires
        total(batches@) <= usize::MAX,
    ensures
        r matches Ok(vs) ==> batches@.len() > 0 && is_slice(batches@, start, end, vs@),
        valid_table(batches@) ==> r is Ok,
        r matches Err(err) ==> fault_of(batches@, err) && !valid_table(batches@),
{
    if batches.len() == 0 {
        return Err(MyError::IndexError("table has no record batch".to_string()));
    }
    if let (Some(s), Some(e)) = (start, end) {
        if s > e {
            let mut out: Vec<BatchView> = Vec::new();
            out.push(BatchView { batch: 0, offset: 0, len: 0 });
            assert(out@ =~= seq![empty_view()]);
            return Ok(out);
        }
    }
    let length = get_length(batches);
    let ghost cs = cells(batches@);
    if length == 0 {
        let out = slice_range(batches, 0, 0);
        proof {
            assert(start_row(cs, start, 0));
            assert(end_row(cs, end, 0));
        }
        return Ok(out);
    }
    let start_slice = match start {
        Some(s) => match binary_search_ts(batches, s, length, false) {
            Ok(i) => i,
            Err(err) => {
                return Err(err);
            },
        },
        None => 0,
    };
    let end_slice = match end {
        Some(e) => match binary_search_ts(batches, e, length, true) {
            Ok(i) => i,
            Err(err) => {
                return Err(err);
            },
        },
        None => length,
    };
    let out = slice_range(batches, start_slice, end_slice);
    proof {
        assert(start_row(cs, start, start_slice as int));
        assert(end_row(cs, end, end_slice as int));
    }
    Ok(out)
}

/// The first error among per-table results, or every table's slice in order.
pub fn combine_results(results: Vec<Result<TableSlice, MyError>>) -> (r: Result<
    Vec<TableSlice>,
    MyError,
>)
    ensures
        combined(results@, r),
{
    let ghost orig = results@;
    let mut rest = results;
    let mut out: Vec<TableSlice> = Vec::new();
    while rest.len() > 0
        invariant
            orig == results@,
            out@.len() <= orig.len(),
            rest@ == orig.subrange(out@.len() as int, orig.len() as int),
            forall|i: int| 0 <= i < out@.len() ==> #[trigger] orig[i] == Ok::<TableSlice, MyError>(out@[i]),
        decreases rest@.len(),
    {
        let ghost k = out@.len() as int;
        let item = rest.remove(0);
        assert(item == orig[k]);
        match item {
            Ok(ts) => {
                out.push(ts);
                assert(rest@ =~= orig.subrange(k + 1, orig.len() as int));
            },
            Err(err) => {
                assert(orig[k] == Err::<TableSlice, MyError>(err));
                assert(forall|j: int| 0 <= j < k ==> #[trigger] orig[j] is Ok);
                assert(!(orig[k] is Ok));
                return Err(err);
            },
        }
    }
    Ok(out)
}

/// A collection of named tables, each sorted by its timestamp column, that
/// can be sliced by time.
pub struct RsCutter {
    tables: Vec<NamedTable>,
}

impl RsCutter {
    /// The tables, in the order given.
    pub closed spec fn tables_spec(&self) -> Seq<NamedTable> {
        self.tables@
    }

    /// The row count of all the tables together fits in a `usize`.
    pub open spec fn wf(&self) -> bool {
        grand(self.tables_spec(), self.tables_spec().len() as int) <= usize::MAX
    }

    /// Takes ownership of the tables. Fails with an index error when their rows
    /// together are more than a `usize` can count.
    pub fn new(tables: Vec<NamedTable>) -> (r: Result<RsCutter, MyError>)
        ensures
            r matches Ok(c) ==> c.tables_spec() == tables@ && c.wf(),
            r is Err <==> grand(tables@, tables@.len() as int) > usize::MAX,
            r matches Err(err) ==> err is IndexError,
    {
        let mut acc: usize = 0;
        let mut k: usize = 0;
        while k < tables.len()
            invariant
                k <= tables@.len(),
                acc == grand(tables@, k as int),
            decreases tables@.len() - k,
        {
            let batches = &tables[k].batches;
            let mut j: usize = 0;
            while j < batches.len()
                invariant
                    k < tables@.len(),
                    *batches == tables@[k as int].batches,
                    j <= batches@.len(),
                    acc == grand(tables@, k as int) + crate::model::prefix(batches@, j as int),
                decreases batches@.len() - j,
            {
                let n = batches[j].num_rows();
                if n > usize::MAX - acc {
                    proof {
                        lemma_prefix_mono(batches@, j + 1, batches@.len() as int);
                        lemma_grand_mono(tables@, k + 1, tables@.len() as int);
                    }
                    return Err(MyError::IndexError("row count does not fit in usize".to_string()));
                }
                acc = acc + n;
                j = j + 1;
            }
            k = k + 1;
        }
        Ok(RsCutter { tables })
    }

    /// Every table's name and batches, in order.
    pub fn tables(&self) -> (r: &Vec<NamedTable>)
        ensures
            r@ == self.tables_spec(),
    {
        &self.tables
    }

    /// The slice of table number `k`, under its name.
    pub fn slice_one(&self, k: usize, start: Option<i64>, end: Option<i64>) -> (r: Result<
        TableSlice,
        MyError,
    >)
        requires
            self.wf(),
            k < self.tables_spec().len(),
        ensures
            one_outcome(self.tables_spec()[k as int], start, end, r),
    {
        proof {
            lemma_grand_mono(self.tables@, k + 1, self.tables@.len() as int);
        }
        let table = &self.tables[k];
        match slice_table(&table.batches, start, end) {
            Ok(views) => Ok(TableSlice { name: table.name.clone(), views }),
            Err(err) => Err(err),
        }
    }

    /// The slice of every table between two optional timestamps, both
    /// inclusive, in table order; or the error of the first table that fails.
    pub fn slice(&self, start: Option<i64>, end: Option<i64>) -> (r: Result<
        Vec<TableSlice>,
        MyError,
    >)
        requires
            self.wf(),
        ensures
            all_outcome(self.tables_spec(), start, end, r),
    {
        let mut out: Vec<TableSlice> = Vec::new();
        let mut k: usize = 0;
        while k < self.tables.len()
            invariant
                self.wf(),
                k <= self.tables@.len(),
                out@.len() == k,
                forall|i: int|
                    0 <= i < k ==> one_outcome(
                        #[trigger] self.tables@[i],
                        start,
                        end,
                        Ok::<TableSlice, MyError>(out@[i]),
                    ),
            decreases self.tables@.len() - k,
        {
            match self.slice_one(k, start, end) {
                Ok(ts) => out.push(ts),
                Err(err) => {
                    assert(one_outcome(self.tables@[k as int], start, end, Err::<TableSlice, MyError>(err)));
                    assert(!valid_table(self.tables@[k as int].batches@));
                    return Err(err);
                },
            }
            k = k + 1;
        }
        Ok(out)
    }

    /// The number of rows of all batches of all tables.
    pub fn total_row_count(&self) -> (r: usize)
        requires
            self.wf(),
        ensures
            r == grand(self.tables_spec(), self.tables_spec().len() as int),
    {
        let mut acc: usize = 0;
        let mut k: usize = 0;
        while k < self.tables.len()
            invariant
                self.wf(),
                k <= self.tables@.len(),
                acc == grand(self.tables@, k as int),
            decreases self.tables@.len() - k,
        {
            proof {
                lemma_grand_mono(self.tables@, k + 1, self.tables@.len() as int);
            }
            acc = acc + get_length(&self.tables[k].batches);
            k = k + 1;
        }
        acc
    }
}

} // verus!
