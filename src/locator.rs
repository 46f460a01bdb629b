use vstd::prelude::*;

use crate::errors::MyError;
use crate::model::{
    TsColumn, TsCell, rows, cell, prefix, total, cell_in, cells, before, is_boundary,
    lemma_prefix_mono, lemma_cell_in_batch,
};

verus! {

/// The number of rows of a table: the sum of its batches' row counts.
pub fn get_length(batches: &Vec<TsColumn>) -> (r: usize)
    requires
        total(batches@) <= usize::MAX,
    ensures
        r == total(batches@),
{
    let mut acc: usize = 0;
    let mut k: usize = 0;
    while k < batches.len()
        invariant
            k <= batches@.len(),
            acc == prefix(batches@, k as int),
            total(batches@) <= usize::MAX,
        decreases batches@.len() - k,
    {
        proof {
            lemma_prefix_mono(batches@, k + 1, batches@.len() as int);
        }
        acc = acc + batches[k].num_rows();
        k = k + 1;
    }
    acc
}

/// The timestamp of logical row `index` of a table.
pub fn get_ts(batches: &Vec<TsColumn>, index: usize) -> (r: Result<i64, MyError>)
    ensures
        index >= total(batches@) ==> r matches Err(MyError::IndexError(_)),
        index < total(batches@) ==> match cells(batches@)[index as int] {
            TsCell::Value(v) => r == Ok::<i64, MyError>(v),
            TsCell::Null => r matches Err(MyError::NullValueError(_)),
            TsCell::WrongType => r matches Err(MyError::ColumnTypeError(_)),
        },
{
    let mut start: usize = 0;
    let mut k: usize = 0;
    while k < batches.len()
        invariant
            k <= batches@.len(),
            start == prefix(batches@, k as int),
            start <= index,
        decreases batches@.len() - k,
    {
        let n = batches[k].num_rows();
        if index - start < n {
            let local = index - start;
            proof {
                lemma_prefix_mono(batches@, k + 1, batches@.len() as int);
                lemma_cell_in_batch(batches@, k as int, batches@.len() as int, index as int);
            }
            return match &batches[k] {
                TsColumn::Nanos(v) => match v[local] {
                    Some(x) => Ok(x),
                    None => Err(MyError::NullValueError("timestamp cell is null".to_string())),
                },
                TsColumn::Other(_) => Err(
                    MyError::ColumnTypeError(
                        "timestamp column is not a nanosecond timestamp column".to_string(),
                    ),
                ),
            };
        }
        start = start + n;
        k = k + 1;
    }
    Err(MyError::IndexError("logical index out of bounds".to_string()))
}

/// The insertion point of `target` among the rows of a table that has
/// `total_rows` rows: the first row whose timestamp is at least `target`, or,
/// with `past_ties`, the first whose timestamp is above it.
pub fn binary_search_ts(batches: &Vec<TsColumn>, target: i64, total_rows: usize, past_ties: bool)
    -> (r: Result<usize, MyError>)
    requires
        total_rows == total(batches@),
    ensures
        total_rows == 0 ==> r matches Err(MyError::IndexError(_)),
        r matches Ok(i) ==> is_boundary(cells(batches@), target, past_ties, i as int),
        (forall|i: int| 0 <= i < total_rows ==> #[trigger] cells(batches@)[i] is Value)
            && total_rows > 0 ==> r is Ok,
        r matches Err(MyError::NullValueError(_)) ==> exists|i: int|
            0 <= i < total_rows && #[trigger] cells(batches@)[i] is Null,
        r matches Err(MyError::ColumnTypeError(_)) ==> exists|i: int|
            0 <= i < total_rows && #[trigger] cells(batches@)[i] is WrongType,
        r is Err ==> !(r matches Err(MyError::DateError(_))),
        r matches Err(MyError::IndexError(_)) ==> total_rows == 0,
{
    if total_rows == 0 {
        return Err(MyError::IndexError("no rows to search".to_string()));
    }
    let ghost cs = cells(batches@);
    let mut lo: usize = 0;
    let mut hi: usize = total_rows;
    while lo < hi
        invariant
            lo <= hi <= total_rows,
            total_rows == total(batches@),
            cs == cells(batches@),
            lo == 0 || before(cs[lo - 1], target, past_ties),
            hi == total_rows || (cs[hi as int] is Value && !before(cs[hi as int], target, past_ties)),
        decreases hi - lo,
    {
        let mid = lo + (hi - lo) / 2;
        let ts = match get_ts(batches, mid) {
            Ok(v) => v,
            Err(e) => {
                return Err(e);
            },
        };
        if ts < target || (past_ties && ts == target) {
            lo = mid + 1;
        } else {
            hi = mid;
        }
    }
    Ok(lo)
}

} // verus!
