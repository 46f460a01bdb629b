use vstd::prelude::*;

verus! {

/// The errors that slicing a table can end in.
#[derive(Debug)]
pub enum MyError {
    /// A logical index past the end of a table, or a table without batches.
    IndexError(String),
    /// The timestamp column of a batch is not a nanosecond timestamp column.
    ColumnTypeError(String),
    /// Calendar fields that do not make a representable date and time.
    DateError(String),
    /// A timestamp cell that holds no value.
    NullValueError(String),
}

impl MyError {
    pub open spec fn is_index(&self) -> bool {
        self is IndexError
    }

    pub open spec fn is_column_type(&self) -> bool {
        self is ColumnTypeError
    }

    pub open spec fn is_date(&self) -> bool {
        self is DateError
    }

    pub open spec fn is_null_value(&self) -> bool {
        self is NullValueError
    }

    /// The name of the error's kind, as a reader would see it.
    pub fn kind_name(&self) -> (r: &'static str)
        ensures
            r@ == self.kind_name_spec(),
    {
        match self {
            MyError::IndexError(_) => "Index error",
            MyError::ColumnTypeError(_) => "Column type error",
            MyError::DateError(_) => "Date error",
            MyError::NullValueError(_) => "Null value error",
        }
    }

    pub open spec fn kind_name_spec(&self) -> Seq<char> {
        match self {
            MyError::IndexError(_) => "Index error"@,
            MyError::ColumnTypeError(_) => "Column type error"@,
            MyError::DateError(_) => "Date error"@,
            MyError::NullValueError(_) => "Null value error"@,
        }
    }

    /// The detail text that the error carries.
    pub fn detail(&self) -> (r: &str)
        ensures
            r@ == self.detail_spec()@,
    {
        match self {
            MyError::IndexError(d) => d.as_str(),
            MyError::ColumnTypeError(d) => d.as_str(),
            MyError::DateError(d) => d.as_str(),
            MyError::NullValueError(d) => d.as_str(),
        }
    }

    pub open spec fn detail_spec(&self) -> String {
        match self {
            MyError::IndexError(d) => *d,
            MyError::ColumnTypeError(d) => *d,
            MyError::DateError(d) => *d,
            MyError::NullValueError(d) => *d,
        }
    }
}

} // verus!
