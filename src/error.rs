use vstd::prelude::*;

verus! {

/// Why an operation on a page, a column or a table failed.
#[derive(Debug)]
pub enum TableError {
    /// The column's physical type is not one of the five that values exist for.
    UnsupportedType,
    /// The value's type differs from the column's physical type.
    TypeMismatch,
    /// The column number is not a column of the table.
    IndexOutOfRange,
    /// The table has no columns.
    NoColumns,
    /// The columns do not all hold the same number of values.
    RowCountMismatch,
    /// The buffered size would no longer fit in `usize`.
    SizeOverflow,
    /// The sink failed while writing or finishing the file.
    Sink(parquet2::error::Error),
}

} // verus!
