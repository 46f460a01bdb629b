//! Range slicing of batch-partitioned tables that are sorted by a timestamp
//! column: each table is a sequence of batches, and a slice is the run of rows
//! whose timestamp lies within optional inclusive bounds, handed back as views
//! into the original batches.
use vstd::prelude::*;

pub mod engine;
pub mod errors;
pub mod laws;
pub mod locator;
pub mod model;
pub mod slicer;
pub mod timestamp;

pub use engine::{NamedTable, RsCutter, TableSlice, combine_results, slice_table};
pub use errors::MyError;
pub use locator::{binary_search_ts, get_length, get_ts};
pub use model::TsColumn;
pub use slicer::{BatchView, slice_range};
pub use timestamp::{CivilDateTime, parse_timestamp};

verus! {

} // verus!
