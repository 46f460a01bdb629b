use rs_cutter::{
    binary_search_ts, combine_results, get_length, get_ts, slice_range, slice_table, BatchView,
    MyError, NamedTable, RsCutter, TableSlice, TsColumn,
};

/// A batch whose timestamps are the given values.
fn batch(ts: &[i64]) -> TsColumn {
    TsColumn::Nanos(ts.iter().map(|v| Some(*v)).collect())
}

/// A batch of `n` rows whose timestamps equal their logical row index, from `first`.
fn index_batch(first: i64, n: i64) -> TsColumn {
    batch(&(first..first + n).collect::<Vec<i64>>())
}

fn scenario_table() -> Vec<TsColumn> {
    vec![index_batch(0, 100), index_batch(100, 50), index_batch(150, 200)]
}

fn view(batch: usize, offset: usize, len: usize) -> BatchView {
    BatchView { batch, offset, len }
}

fn empty() -> Vec<BatchView> {
    vec![view(0, 0, 0)]
}

/// The logical rows that views cover, with the batch boundaries of `t`.
fn logical_rows(t: &[TsColumn], vs: &[BatchView]) -> Vec<usize> {
    let mut starts = vec![];
    let mut acc = 0;
    for b in t {
        starts.push(acc);
        acc += b.num_rows();
    }
    let mut out = vec![];
    for v in vs {
        for j in 0..v.len {
            out.push(starts[v.batch] + v.offset + j);
        }
    }
    out
}

#[test]
fn three_batches_range_spans_two() {
    let t = scenario_table();
    let vs = slice_table(&t, Some(120), Some(160)).unwrap();
    assert_eq!(vs, vec![view(1, 20, 30), view(2, 0, 11)]);
    assert_eq!(logical_rows(&t, &vs), (120..161).collect::<Vec<usize>>());
}

#[test]
fn range_within_one_batch() {
    let t = scenario_table();
    assert_eq!(slice_table(&t, Some(10), Some(20)).unwrap(), vec![view(0, 10, 11)]);
}

#[test]
fn range_spans_all_batches_with_interior_whole() {
    let t = scenario_table();
    let vs = slice_table(&t, Some(50), Some(200)).unwrap();
    assert_eq!(vs, vec![view(0, 50, 50), view(1, 0, 50), view(2, 0, 51)]);
}

#[test]
fn boundary_rows_are_inclusive() {
    let t = vec![batch(&[10, 20, 30]), batch(&[40, 50])];
    let vs = slice_table(&t, Some(20), Some(40)).unwrap();
    assert_eq!(logical_rows(&t, &vs), vec![1, 2, 3]);
    let vs = slice_table(&t, Some(30), Some(30)).unwrap();
    assert_eq!(vs, vec![view(0, 2, 1)]);
}

#[test]
fn bounds_between_timestamps() {
    let t = vec![batch(&[10, 20, 30]), batch(&[40, 50])];
    let vs = slice_table(&t, Some(15), Some(45)).unwrap();
    assert_eq!(logical_rows(&t, &vs), vec![1, 2, 3]);
}

#[test]
fn ties_at_both_bounds_are_kept() {
    let t = vec![batch(&[1, 2, 2]), batch(&[2, 3, 3]), batch(&[3, 4])];
    let vs = slice_table(&t, Some(2), Some(3)).unwrap();
    assert_eq!(logical_rows(&t, &vs), vec![1, 2, 3, 4, 5, 6]);
}

#[test]
fn inverted_bounds_give_empty_view() {
    let t = scenario_table();
    assert_eq!(slice_table(&t, Some(200), Some(100)).unwrap(), empty());
}

#[test]
fn start_after_last_gives_empty_view() {
    let t = scenario_table();
    assert_eq!(slice_table(&t, Some(1000), None).unwrap(), empty());
    assert_eq!(slice_table(&t, Some(1000), Some(2000)).unwrap(), empty());
}

#[test]
fn end_before_first_gives_empty_view() {
    let t = vec![batch(&[10, 20]), batch(&[30])];
    assert_eq!(slice_table(&t, None, Some(5)).unwrap(), empty());
    assert_eq!(slice_table(&t, Some(1), Some(5)).unwrap(), empty());
}

#[test]
fn absent_bounds_give_whole_table() {
    let t = scenario_table();
    let whole = vec![view(0, 0, 100), view(1, 0, 50), view(2, 0, 200)];
    assert_eq!(slice_table(&t, None, None).unwrap(), whole);
    assert_eq!(slice_table(&t, Some(-5), None).unwrap(), whole);
    assert_eq!(slice_table(&t, None, Some(349)).unwrap(), whole);
    assert_eq!(slice_table(&t, Some(0), Some(i64::MAX)).unwrap(), whole);
    assert_eq!(slice_table(&t, None, Some(160)).unwrap(), slice_table(&t, Some(0), Some(160)).unwrap());
    assert_eq!(slice_table(&t, Some(120), None).unwrap(), slice_table(&t, Some(120), Some(349)).unwrap());
}

#[test]
fn extreme_bounds() {
    let t = vec![batch(&[i64::MIN, 0, i64::MAX])];
    assert_eq!(slice_table(&t, Some(i64::MIN), Some(i64::MIN)).unwrap(), vec![view(0, 0, 1)]);
    assert_eq!(slice_table(&t, Some(i64::MAX), Some(i64::MAX)).unwrap(), vec![view(0, 2, 1)]);
}

#[test]
fn slicing_twice_gives_same_views() {
    let t = scenario_table();
    let a = slice_table(&t, Some(7), Some(222)).unwrap();
    let b = slice_table(&t, Some(7), Some(222)).unwrap();
    assert_eq!(a, b);
}

#[test]
fn other_batching_same_logical_rows() {
    let a = scenario_table();
    let b = vec![index_batch(0, 7), index_batch(7, 300), index_batch(307, 43)];
    let va = slice_table(&a, Some(120), Some(160)).unwrap();
    let vb = slice_table(&b, Some(120), Some(160)).unwrap();
    assert_eq!(logical_rows(&a, &va), logical_rows(&b, &vb));
    assert_eq!(vb, vec![view(1, 113, 41)]);
}

#[test]
fn empty_batches_are_skipped() {
    let t = vec![batch(&[]), batch(&[1, 2]), batch(&[]), batch(&[3])];
    assert_eq!(slice_table(&t, None, None).unwrap(), vec![view(1, 0, 2), view(3, 0, 1)]);
}

#[test]
fn table_of_empty_batches_gives_empty_view() {
    let t = vec![batch(&[]), batch(&[])];
    assert_eq!(slice_table(&t, Some(1), Some(2)).unwrap(), empty());
    assert_eq!(slice_table(&t, None, None).unwrap(), empty());
}

#[test]
fn table_without_batches_is_index_error() {
    let t: Vec<TsColumn> = vec![];
    assert!(matches!(slice_table(&t, None, None), Err(MyError::IndexError(_))));
    assert!(matches!(slice_table(&t, Some(3), Some(1)), Err(MyError::IndexError(_))));
}

#[test]
fn wrong_column_type_is_column_type_error() {
    let t = vec![TsColumn::Other(4)];
    assert!(matches!(slice_table(&t, Some(1), None), Err(MyError::ColumnTypeError(_))));
    assert_eq!(slice_table(&t, None, None).unwrap(), vec![view(0, 0, 4)]);
}

#[test]
fn null_timestamp_is_null_value_error() {
    let t = vec![TsColumn::Nanos(vec![Some(1), None, Some(3)])];
    assert!(matches!(slice_table(&t, Some(2), None), Err(MyError::NullValueError(_))));
}

#[test]
fn get_ts_reads_across_batches() {
    let t = scenario_table();
    assert_eq!(get_ts(&t, 0).unwrap(), 0);
    assert_eq!(get_ts(&t, 99).unwrap(), 99);
    assert_eq!(get_ts(&t, 100).unwrap(), 100);
    assert_eq!(get_ts(&t, 349).unwrap(), 349);
    assert!(matches!(get_ts(&t, 350), Err(MyError::IndexError(_))));
}

#[test]
fn get_ts_errors() {
    let t = vec![batch(&[5]), TsColumn::Nanos(vec![None]), TsColumn::Other(2)];
    assert_eq!(get_ts(&t, 0).unwrap(), 5);
    assert!(matches!(get_ts(&t, 1), Err(MyError::NullValueError(_))));
    assert!(matches!(get_ts(&t, 3), Err(MyError::ColumnTypeError(_))));
    assert!(matches!(get_ts(&t, 4), Err(MyError::IndexError(_))));
}

#[test]
fn binary_search_insertion_points() {
    let t = vec![batch(&[10, 20, 20]), batch(&[20, 30])];
    let n = get_length(&t);
    assert_eq!(n, 5);
    assert_eq!(binary_search_ts(&t, 5, n, false).unwrap(), 0);
    assert_eq!(binary_search_ts(&t, 10, n, false).unwrap(), 0);
    assert_eq!(binary_search_ts(&t, 20, n, false).unwrap(), 1);
    assert_eq!(binary_search_ts(&t, 20, n, true).unwrap(), 4);
    assert_eq!(binary_search_ts(&t, 25, n, false).unwrap(), 4);
    assert_eq!(binary_search_ts(&t, 30, n, true).unwrap(), 5);
    assert_eq!(binary_search_ts(&t, 99, n, false).unwrap(), 5);
}

#[test]
fn binary_search_on_no_rows_is_index_error() {
    let t = vec![batch(&[])];
    assert!(matches!(binary_search_ts(&t, 1, 0, false), Err(MyError::IndexError(_))));
}

#[test]
fn slice_range_cases() {
    let t = scenario_table();
    assert_eq!(slice_range(&t, 120, 161), vec![view(1, 20, 30), view(2, 0, 11)]);
    assert_eq!(slice_range(&t, 0, 350), vec![view(0, 0, 100), view(1, 0, 50), view(2, 0, 200)]);
    assert_eq!(slice_range(&t, 100, 150), vec![view(1, 0, 50)]);
    assert_eq!(slice_range(&t, 350, 400), empty());
    assert_eq!(slice_range(&t, 5, 0), empty());
    assert_eq!(slice_range(&t, 7, 7), empty());
}

fn named(name: &str, batches: Vec<TsColumn>) -> NamedTable {
    NamedTable { name: name.to_string(), batches }
}

#[test]
fn total_row_count_sums_all_batches() {
    let c = RsCutter::new(vec![named("a", scenario_table()), named("b", vec![batch(&[1, 2])])]).unwrap();
    assert_eq!(c.total_row_count(), 352);
    let whole: usize = c
        .slice(None, None)
        .unwrap()
        .iter()
        .map(|s| s.views.iter().map(|v| v.len).sum::<usize>())
        .sum();
    assert_eq!(whole, 352);
}

#[test]
fn total_row_count_of_nothing_is_zero() {
    let c = RsCutter::new(vec![]).unwrap();
    assert_eq!(c.total_row_count(), 0);
    assert_eq!(c.slice(None, None).unwrap().len(), 0);
}

#[test]
fn new_refuses_row_count_overflow() {
    let r = RsCutter::new(vec![
        named("a", vec![TsColumn::Other(usize::MAX)]),
        named("b", vec![TsColumn::Other(1)]),
    ]);
    assert!(matches!(r, Err(MyError::IndexError(_))));
}

#[test]
fn slice_all_tables_in_order() {
    let c = RsCutter::new(vec![named("a", scenario_table()), named("b", vec![batch(&[130, 140])])]).unwrap();
    let r = c.slice(Some(120), Some(135)).unwrap();
    assert_eq!(r.len(), 2);
    assert_eq!(r[0].name, "a");
    assert_eq!(r[0].views, vec![view(1, 20, 16)]);
    assert_eq!(r[1].name, "b");
    assert_eq!(r[1].views, vec![view(0, 0, 1)]);
}

#[test]
fn empty_table_fails_whole_slice() {
    let c = RsCutter::new(vec![named("valid", scenario_table()), named("empty", vec![])]).unwrap();
    assert!(matches!(c.slice(None, None), Err(MyError::IndexError(_))));
    assert!(matches!(c.slice(Some(1), Some(2)), Err(MyError::IndexError(_))));
    let each: Vec<Result<TableSlice, MyError>> = (0..2).map(|k| c.slice_one(k, None, None)).collect();
    assert!(matches!(combine_results(each), Err(MyError::IndexError(_))));
}

#[test]
fn combine_results_keeps_order_or_first_error() {
    let ok = |n: &str| Ok(TableSlice { name: n.to_string(), views: empty() });
    let all = combine_results(vec![ok("x"), ok("y")]).unwrap();
    assert_eq!(all.iter().map(|s| s.name.as_str()).collect::<Vec<_>>(), vec!["x", "y"]);
    let r = combine_results(vec![
        ok("x"),
        Err(MyError::NullValueError("first".to_string())),
        Err(MyError::IndexError("second".to_string())),
    ]);
    match r {
        Err(MyError::NullValueError(d)) => assert_eq!(d, "first"),
        _ => panic!("expected the first error"),
    }
}

#[test]
fn error_kind_and_detail() {
    let e = MyError::ColumnTypeError("bad".to_string());
    assert_eq!(e.kind_name(), "Column type error");
    assert_eq!(e.detail(), "bad");
    assert_eq!(MyError::IndexError(String::new()).kind_name(), "Index error");
    assert_eq!(MyError::DateError(String::new()).kind_name(), "Date error");
    assert_eq!(MyError::NullValueError(String::new()).kind_name(), "Null value error");
}
