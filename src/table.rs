use crate::column_builder::{lemma_pushed_totals, ColumnBuilder, ColumnChunk};
use crate::error::TableError;
use crate::value::{
    lemma_values_prefix_bytes, lemma_values_prefix_size, values_bytes, values_size, PhysicalType,
    Value,
};
use parquet2::compression::CompressionOptions;
use parquet2::metadata::Descriptor;
use parquet2::write::WriteOptions;
use vstd::prelude::*;

verus! {

/// How a table lays out its file: the writer's options, the codec for its
/// pages, and the page size budget in bytes.
#[derive(Clone, Copy, Debug, PartialEq, Eq)]
pub struct Options {
    pub write_options: WriteOptions,
    pub compression_options: CompressionOptions,
    pub page_size: usize,
}

/// A row group taken out of a table: the number of rows and, in schema
/// order, the drained chunk of each column.
pub struct RowGroup {
    pub rows: usize,
    pub columns: Vec<ColumnChunk>,
}

/// One column of a schema: its physical type and its parquet2 descriptor.
pub struct ColumnSpec {
    pub kind: PhysicalType,
    pub descriptor: Descriptor,
}

/// The total buffered size of a sequence of columns.
pub open spec fn columns_size(columns: Seq<ColumnBuilder>) -> nat
    decreases columns.len(),
{
    if columns.len() == 0 {
        0
    } else {
        columns_size(columns.drop_last()) + columns.last().spec_size()
    }
}

/// Replacing one column changes the total by the change of that column.
pub proof fn lemma_columns_size_update(columns: Seq<ColumnBuilder>, i: int, c: ColumnBuilder)
    requires
        0 <= i < columns.len(),
    ensures
        columns_size(columns.update(i, c)) + columns[i].spec_size() == columns_size(columns)
            + c.spec_size(),
        columns[i].spec_size() <= columns_size(columns),
    decreases columns.len(),
{
    let updated = columns.update(i, c);
    if i == columns.len() - 1 {
        assert(updated.drop_last() =~= columns.drop_last());
    } else {
        assert(updated.drop_last() =~= columns.drop_last().update(i, c));
        lemma_columns_size_update(columns.drop_last(), i, c);
    }
}

/// The size of a prefix grows by the size of the next column, and stays
/// within the size of the whole.
proof fn lemma_columns_prefix_size(columns: Seq<ColumnBuilder>, i: int)
    requires
        0 <= i < columns.len(),
    ensures
        columns_size(columns.subrange(0, i + 1)) == columns_size(columns.subrange(0, i))
            + columns[i].spec_size(),
        columns_size(columns.subrange(0, i + 1)) <= columns_size(columns),
    decreases columns.len() - i,
{
    assert(columns.subrange(0, i + 1).drop_last() =~= columns.subrange(0, i));
    if i + 1 < columns.len() {
        lemma_columns_prefix_size(columns, i + 1);
    } else {
        assert(columns.subrange(0, i + 1) =~= columns);
    }
}

/// A table being written: one column builder for each column of the schema,
/// in schema order, that are kept at equal row counts when a row group is
/// taken out.
pub struct Table {
    columns: Vec<ColumnBuilder>,
}

impl Table {
    /// The columns, in schema order.
    pub closed spec fn spec_columns(&self) -> Seq<ColumnBuilder> {
        self.columns@
    }

    /// The total buffered size in bytes.
    pub open spec fn spec_size(&self) -> nat {
        columns_size(self.spec_columns())
    }

    pub open spec fn wf(&self) -> bool {
        &&& forall|i: int|
            0 <= i < self.spec_columns().len() ==> (#[trigger] self.spec_columns()[i]).wf()
        &&& self.spec_size() <= usize::MAX
    }

    /// Every column holds `n` values.
    pub open spec fn all_counts(&self, n: nat) -> bool {
        forall|i: int|
            0 <= i < self.spec_columns().len() ==> (#[trigger] self.spec_columns()[i]).spec_count()
                == n
    }

    /// The number of buffered rows: the count that every column holds, if
    /// there are columns and their counts agree.
    pub open spec fn row_count(&self) -> Option<nat> {
        if self.spec_columns().len() > 0 && self.all_counts(self.spec_columns()[0].spec_count()) {
            Some(self.spec_columns()[0].spec_count())
        } else {
            None
        }
    }

    /// The error with which a push of `value` onto column `column_no` fails.
    pub open spec fn push_error(&self, column_no: int, value: Value) -> TableError {
        if column_no < 0 || column_no >= self.spec_columns().len() {
            TableError::IndexOutOfRange
        } else if !self.spec_columns()[column_no].spec_kind().is_supported() {
            TableError::UnsupportedType
        } else {
            TableError::TypeMismatch
        }
    }

    /// Column `column_no` exists and takes `value`.
    pub open spec fn takes(&self, column_no: int, value: Value) -> bool {
        0 <= column_no < self.spec_columns().len() && self.spec_columns()[column_no].accepts(
            value,
        )
    }

    /// Each of the first `k` values is taken by the column of its position.
    pub open spec fn takes_row_prefix(&self, values: Seq<Value>, k: int) -> bool {
        forall|i: int| 0 <= i < k ==> self.takes(i, #[trigger] values[i])
    }

    /// Each of the first `k` values is taken by column `column_no`.
    pub open spec fn takes_column_prefix(&self, column_no: int, values: Seq<Value>, k: int) -> bool {
        forall|i: int| 0 <= i < k ==> self.takes(column_no, #[trigger] values[i])
    }

    /// Column `i` of this table is `before`'s with `values[i]` pushed onto it
    /// for each `i < k`, and the other columns are `before`'s.
    pub open spec fn row_pushed(&self, before: Table, values: Seq<Value>, k: int) -> bool {
        &&& self.spec_columns().len() == before.spec_columns().len()
        &&& forall|i: int|
            0 <= i < k ==> (#[trigger] self.spec_columns()[i]).pushed(
                before.spec_columns()[i],
                values[i],
            )
        &&& forall|i: int|
            k <= i < self.spec_columns().len() ==> #[trigger] self.spec_columns()[i]
                == before.spec_columns()[i]
    }

    /// Every column is `before`'s column with its pages taken out.
    pub open spec fn drained(&self, before: Table) -> bool {
        &&& self.wf()
        &&& self.spec_columns().len() == before.spec_columns().len()
        &&& forall|i: int|
            0 <= i < self.spec_columns().len() ==> {
                &&& (#[trigger] self.spec_columns()[i]).same_settings(before.spec_columns()[i])
                &&& self.spec_columns()[i].spec_pages().len() == 0
            }
    }

    /// Creates a table with one empty column for each column of the schema,
    /// in schema order, with the options' page size and codec.
    pub fn new(schema: Vec<ColumnSpec>, options: Options) -> (r: Self)
        ensures
            r.wf(),
            r.spec_columns().len() == schema@.len(),
            forall|i: int|
                0 <= i < r.spec_columns().len() ==> {
                    &&& (#[trigger] r.spec_columns()[i]).spec_pages().len() == 0
                    &&& r.spec_columns()[i].spec_kind() == schema@[i].kind
                    &&& r.spec_columns()[i].spec_descriptor() == schema@[i].descriptor
                    &&& r.spec_columns()[i].spec_page_size() == options.page_size
                    &&& r.spec_columns()[i].spec_compression() == options.compression_options
                },
    {
        let mut schema = schema;
        let ghost all = schema@;
        let mut columns: Vec<ColumnBuilder> = Vec::new();
        while schema.len() > 0
            invariant
                columns@.len() + schema@.len() == all.len(),
                schema@ == all.subrange(columns@.len() as int, all.len() as int),
                forall|i: int|
                    0 <= i < columns@.len() ==> {
                        &&& (#[trigger] columns@[i]).wf()
                        &&& columns@[i].spec_pages().len() == 0
                        &&& columns@[i].spec_kind() == all[i].kind
                        &&& columns@[i].spec_descriptor() == all[i].descriptor
                        &&& columns@[i].spec_page_size() == options.page_size
                        &&& columns@[i].spec_compression() == options.compression_options
                    },
            decreases schema@.len(),
        {
            let spec = schema.remove(0);
            assert(spec == all[columns@.len() as int]);
            let column = ColumnBuilder::new(
                options.page_size,
                spec.kind,
                spec.descriptor,
                options.compression_options,
            );
            columns.push(column);
            assert(schema@ =~= all.subrange(columns@.len() as int, all.len() as int));
        }
        let r = Table { columns };
        proof {
            lemma_empty_columns_size(r.columns@);
        }
        r
    }

    /// Pushes `value` onto column `column_no` (its index in the schema). The
    /// value must have the column's type. Columns may be filled in any order,
    /// row by row or column by column, as long as their counts agree when a
    /// row group is flushed.
    pub fn push(&mut self, column_no: usize, value: Value) -> (r: Result<(), TableError>)
        requires
            old(self).wf(),
            old(self).spec_size() + value.encoded().len() <= usize::MAX,
        ensures
            final(self).wf(),
            column_no >= old(self).spec_columns().len() ==> (r matches Err(e)
                && e is IndexOutOfRange),
            column_no < old(self).spec_columns().len() ==> (old(
                self,
            ).spec_columns()[column_no as int].accepts(value) <==> r is Ok),
            r is Ok ==> {
                &&& final(self).spec_columns().len() == old(self).spec_columns().len()
                &&& final(self).spec_columns()[column_no as int].pushed(
                    old(self).spec_columns()[column_no as int],
                    value,
                )
                &&& forall|j: int|
                    0 <= j < final(self).spec_columns().len() && j != column_no
                        ==> #[trigger] final(self).spec_columns()[j] == old(self).spec_columns()[j]
                &&& final(self).spec_size() == old(self).spec_size() + value.encoded().len()
            },
            r is Err ==> final(self).spec_columns() == old(self).spec_columns(),
            r is Err ==> r == Err::<(), TableError>(old(self).push_error(column_no as int, value)),
            column_no < old(self).spec_columns().len() && !old(
                self,
            ).spec_columns()[column_no as int].spec_kind().is_supported() ==> (r matches Err(e)
                && e is UnsupportedType),
            column_no < old(self).spec_columns().len() && old(
                self,
            ).spec_columns()[column_no as int].spec_kind().is_supported() && !old(
                self,
            ).spec_columns()[column_no as int].accepts(value) ==> (r matches Err(e)
                && e is TypeMismatch),
    {
        if column_no >= self.columns.len() {
            return Err(TableError::IndexOutOfRange);
        }
        let ghost before = self.columns@;
        proof {
            lemma_columns_size_update(before, column_no as int, before[column_no as int]);
        }
        let res = self.columns[column_no].push(value);
        proof {
            let cols = self.columns@;
            assert(cols == before.update(column_no as int, cols[column_no as int]));
            lemma_columns_size_update(before, column_no as int, cols[column_no as int]);
            if res is Err {
                assert(cols =~= before);
            }
        }
        res
    }

    /// Pushes `values[i]` onto column `i`, in order, stopping at the first
    /// value that is refused; the values before it stay pushed.
    pub fn push_row<'a>(&mut self, values: &[Value<'a>]) -> (r: Result<(), TableError>)
        requires
            old(self).wf(),
            old(self).spec_size() + values_size(values@) <= usize::MAX,
        ensures
            final(self).wf(),
            old(self).takes_row_prefix(values@, values@.len() as int) <==> r is Ok,
            r is Ok ==> final(self).row_pushed(*old(self), values@, values@.len() as int),
            r is Ok ==> final(self).spec_size() == old(self).spec_size() + values_size(values@),
            r is Err ==> exists|k: int|
                0 <= k < values@.len() && old(self).takes_row_prefix(values@, k) && !old(
                    self,
                ).takes(k, #[trigger] values@[k]) && final(self).row_pushed(*old(self), values@, k)
                    && r == Err::<(), TableError>(old(self).push_error(k, values@[k])),
    {
        let ghost before = *self;
        let mut i: usize = 0;
        while i < values.len()
            invariant
                self.wf(),
                i <= values@.len(),
                before == *old(self),
                before.wf(),
                before.spec_size() + values_size(values@) <= usize::MAX,
                self.spec_size() == before.spec_size() + values_size(values@.subrange(0, i as int)),
                before.takes_row_prefix(values@, i as int),
                self.row_pushed(before, values@, i as int),
            decreases values@.len() - i,
        {
            proof {
                lemma_values_prefix_size(values@, i as int);
            }
            let ghost mid = *self;
            match self.push(i, values[i]) {
                Ok(()) => {},
                Err(e) => {
                    proof {
                        if (i as int) < before.spec_columns().len() {
                            assert(mid.spec_columns()[i as int] == before.spec_columns()[i as int]);
                        }
                    }
                    assert(!before.takes(i as int, values@[i as int]));
                    assert(self.row_pushed(before, values@, i as int));
                    return Err(e);
                },
            }
            proof {
                assert(self.row_pushed(before, values@, i as int + 1)) by {
                    assert forall|j: int| 0 <= j < i + 1 implies (#[trigger] self.spec_columns()[
                        j
                    ]).pushed(before.spec_columns()[j], values@[j]) by {
                        if j < i {
                            assert(self.spec_columns()[j] == mid.spec_columns()[j]);
                        }
                    }
                }
                assert(before.takes_row_prefix(values@, i as int + 1)) by {
                    assert forall|j: int| 0 <= j < i + 1 implies before.takes(j, #[trigger] values@[j]) by {
                        if j == i {
                            assert(mid.spec_columns()[j] == before.spec_columns()[j]);
                        }
                    }
                }
            }
            i = i + 1;
        }
        assert(values@.subrange(0, i as int) =~= values@);
        Ok(())
    }

    /// Pushes each of `values`, in order, onto column `column_no`, stopping at
    /// the first value that is refused; the values before it stay pushed.
    pub fn push_column<'a>(&mut self, column_no: usize, values: &[Value<'a>]) -> (r: Result<
        (),
        TableError,
    >)
        requires
            old(self).wf(),
            old(self).spec_size() + values_size(values@) <= usize::MAX,
        ensures
            final(self).wf(),
            final(self).spec_columns().len() == old(self).spec_columns().len(),
            forall|j: int|
                0 <= j < final(self).spec_columns().len() && j != column_no
                    ==> #[trigger] final(self).spec_columns()[j] == old(self).spec_columns()[j],
            old(self).takes_column_prefix(column_no as int, values@, values@.len() as int) <==> r is Ok,
            r is Ok ==> final(self).spec_columns()[column_no as int].spec_count() == old(
                self,
            ).spec_columns()[column_no as int].spec_count() + values@.len(),
            r is Ok ==> final(self).spec_size() == old(self).spec_size() + values_size(values@),
            r is Ok && column_no < old(self).spec_columns().len() ==> (final(self).spec_columns()[
                column_no as int
            ].spec_payload() == old(self).spec_columns()[column_no as int].spec_payload()
                + values_bytes(values@)),
            column_no >= old(self).spec_columns().len() && values@.len() > 0 ==> r
                == Err::<(), TableError>(TableError::IndexOutOfRange),
            r is Err ==> exists|k: int|
                0 <= k < values@.len() && old(self).takes_column_prefix(column_no as int, values@, k)
                    && !old(self).takes(column_no as int, #[trigger] values@[k]) && (column_no
                    < old(self).spec_columns().len() ==> final(self).spec_columns()[column_no as int].spec_count()
                    == old(self).spec_columns()[column_no as int].spec_count() + k
                    && final(self).spec_columns()[column_no as int].spec_payload()
                    == old(self).spec_columns()[column_no as int].spec_payload() + values_bytes(
                    values@.subrange(0, k),
                ))
                    && final(self).spec_size() == old(self).spec_size() + values_size(
                    values@.subrange(0, k),
                ) && r == Err::<(), TableError>(old(self).push_error(column_no as int, values@[k])),
    {
        if column_no >= self.columns.len() {
            if values.len() == 0 {
                return Ok(());
            }
            assert(values@.subrange(0, 0) =~= Seq::<Value>::empty());
            assert(!self.takes(column_no as int, values@[0]));
            return Err(TableError::IndexOutOfRange);
        }
        let ghost before = *self;
        let ghost col = self.spec_columns()[column_no as int];
        proof {
            col.lemma_same_settings(col, col);
        }
        let mut i: usize = 0;
        while i < values.len()
            invariant
                self.wf(),
                i <= values@.len(),
                before == *old(self),
                before.wf(),
                column_no < before.spec_columns().len(),
                col == before.spec_columns()[column_no as int],
                before.spec_size() + values_size(values@) <= usize::MAX,
                self.spec_size() == before.spec_size() + values_size(values@.subrange(0, i as int)),
                self.spec_columns().len() == before.spec_columns().len(),
                forall|j: int|
                    0 <= j < self.spec_columns().len() && j != column_no
                        ==> #[trigger] self.spec_columns()[j] == before.spec_columns()[j],
                before.takes_column_prefix(column_no as int, values@, i as int),
                self.spec_columns()[column_no as int].spec_count() == col.spec_count() + i,
                self.spec_columns()[column_no as int].spec_payload() == col.spec_payload()
                    + values_bytes(values@.subrange(0, i as int)),
                self.spec_columns()[column_no as int].same_settings(col),
            decreases values@.len() - i,
        {
            proof {
                lemma_values_prefix_size(values@, i as int);
                lemma_values_prefix_bytes(values@, i as int);
            }
            let ghost mid = *self;
            match self.push(column_no, values[i]) {
                Ok(()) => {},
                Err(e) => {
                    assert(mid.spec_columns()[column_no as int].spec_kind() == col.spec_kind());
                    assert(!before.takes(column_no as int, values@[i as int]));
                    return Err(e);
                },
            }
            proof {
                lemma_pushed_totals(
                    self.spec_columns()[column_no as int],
                    mid.spec_columns()[column_no as int],
                    values@[i as int],
                );
                assert(self.spec_columns()[column_no as int].spec_payload() =~= col.spec_payload()
                    + values_bytes(values@.subrange(0, i as int + 1)));
                self.spec_columns()[column_no as int].lemma_same_settings(
                    mid.spec_columns()[column_no as int],
                    col,
                );
                assert(before.takes_column_prefix(column_no as int, values@, i as int + 1)) by {
                    assert forall|j: int| 0 <= j < i + 1 implies before.takes(column_no as int, #[trigger] values@[j]) by {
                        if j == i {
                            assert(mid.takes(column_no as int, values@[j]));
                        }
                    }
                }
            }
            i = i + 1;
        }
        assert(values@.subrange(0, i as int) =~= values@);
        Ok(())
    }

    /// Checks that the table has columns and that they all hold the same
    /// number of values, and returns that number.
    pub fn validate(&self) -> (r: Result<usize, TableError>)
        requires
            self.wf(),
        ensures
            self.row_count() is Some <==> r is Ok,
            r matches Ok(n) ==> self.row_count() == Some(n as nat),
            self.spec_columns().len() == 0 ==> (r matches Err(e) && e is NoColumns),
            self.spec_columns().len() > 0 && self.row_count() is None ==> (r matches Err(e)
                && e is RowCountMismatch),
    {
        if self.columns.len() == 0 {
            return Err(TableError::NoColumns);
        }
        let n = self.columns[0].count();
        let mut i: usize = 1;
        while i < self.columns.len()
            invariant
                self.wf(),
                0 < i <= self.columns@.len(),
                n == self.columns@[0].spec_count(),
                forall|j: int| 0 <= j < i ==> (#[trigger] self.columns@[j]).spec_count() == n,
            decreases self.columns@.len() - i,
        {
            assert(self.columns@[i as int].wf());
            if self.columns[i].count() != n {
                return Err(TableError::RowCountMismatch);
            }
            i = i + 1;
        }
        Ok(n)
    }

    /// Takes one row group out of the table: after a successful validation
    /// every column is drained, in schema order, and the row group carries
    /// their page streams. With no buffered rows nothing is taken out. On a
    /// failed validation no column is drained.
    pub fn flush(&mut self) -> (r: Result<RowGroup, TableError>)
        requires
            old(self).wf(),
        ensures
            final(self).wf(),
            old(self).row_count() is None ==> r is Err && *final(self) == *old(self),
            old(self).spec_columns().len() == 0 ==> (r matches Err(e) && e is NoColumns),
            old(self).row_count() is Some && old(self).row_count()->0 > 0 ==> (r matches Ok(g)
                && forall|i: int|
                0 <= i < g.columns@.len() ==> (#[trigger] g.columns@[i]).drained_from(
                    old(self).spec_columns()[i],
                )),
            old(self).spec_columns().len() > 0 && old(self).row_count() is None ==> (r matches Err(
                e,
            ) && e is RowCountMismatch),
            old(self).row_count() == Some(0nat) ==> (r matches Ok(g) && g.rows == 0
                && g.columns@.len() == 0 && *final(self) == *old(self)),
            old(self).row_count() is Some && old(self).row_count()->0 > 0 ==> (r matches Ok(g)
                && g.rows == old(self).row_count()->0 && g.columns@.len() == old(
                self,
            ).spec_columns().len() && final(self).drained(*old(self))),
    {
        let n = match self.validate() {
            Ok(n) => n,
            Err(e) => return Err(e),
        };
        if n == 0 {
            return Ok(RowGroup { rows: 0, columns: Vec::new() });
        }
        let ghost before = self.columns@;
        let mut chunks: Vec<ColumnChunk> = Vec::new();
        let mut i: usize = 0;
        while i < self.columns.len()
            invariant
                self.columns@.len() == before.len(),
                0 <= i <= before.len(),
                chunks@.len() == i,
                before == old(self).spec_columns(),
                forall|j: int| 0 <= j < i ==> (#[trigger] chunks@[j]).drained_from(before[j]),
                forall|j: int| 0 <= j < before.len() ==> (#[trigger] before[j]).wf(),
                forall|j: int|
                    0 <= j < i ==> {
                        &&& (#[trigger] self.columns@[j]).wf()
                        &&& self.columns@[j].same_settings(before[j])
                        &&& self.columns@[j].spec_pages().len() == 0
                    },
                forall|j: int| i <= j < before.len() ==> #[trigger] self.columns@[j] == before[j],
            decreases before.len() - i,
        {
            let ghost cur = self.columns@;
            let chunk = self.columns[i].drain();
            assert(self.columns@ == cur.update(i as int, self.columns@[i as int]));
            chunks.push(chunk);
            i = i + 1;
        }
        proof {
            lemma_empty_columns_size(self.columns@);
        }
        Ok(RowGroup { rows: n, columns: chunks })
    }

    /// The total buffered size of the table in bytes, without what was already
    /// written and without any metadata.
    pub fn size(&self) -> (r: usize)
        requires
            self.wf(),
        ensures
            r == self.spec_size(),
    {
        let mut total: usize = 0;
        let mut i: usize = 0;
        while i < self.columns.len()
            invariant
                self.wf(),
                i <= self.columns@.len(),
                total == columns_size(self.columns@.subrange(0, i as int)),
            decreases self.columns@.len() - i,
        {
            proof {
                lemma_columns_prefix_size(self.columns@, i as int);
            }
            assert(self.columns@[i as int].wf());
            total = total + self.columns[i].size();
            i = i + 1;
        }
        assert(self.columns@.subrange(0, i as int) =~= self.columns@);
        total
    }

    /// Whether the buffered size stays within `usize` once `value` is pushed.
    pub fn has_room_for(&self, value: &Value) -> (r: bool)
        requires
            self.wf(),
        ensures
            r == (self.spec_size() + value.encoded().len() <= usize::MAX),
    {
        match value.encoded_size() {
            Some(n) => n <= usize::MAX - self.size(),
            None => false,
        }
    }

    /// Whether the buffered size stays within `usize` once all of `values`
    /// are pushed.
    pub fn has_room_for_all(&self, values: &[Value]) -> (r: bool)
        requires
            self.wf(),
        ensures
            r == (self.spec_size() + values_size(values@) <= usize::MAX),
    {
        let mut total: usize = self.size();
        let mut i: usize = 0;
        while i < values.len()
            invariant
                self.wf(),
                i <= values@.len(),
                total == self.spec_size() + values_size(values@.subrange(0, i as int)),
            decreases values@.len() - i,
        {
            proof {
                lemma_values_prefix_size(values@, i as int);
            }
            match values[i].encoded_size() {
                Some(n) => {
                    if n > usize::MAX - total {
                        return false;
                    }
                    total = total + n;
                },
                None => {
                    return false;
                },
            }
            i = i + 1;
        }
        assert(values@.subrange(0, i as int) =~= values@);
        true
    }

    /// The number of columns.
    pub fn num_columns(&self) -> (r: usize)
        ensures
            r == self.spec_columns().len(),
    {
        self.columns.len()
    }

    /// The buffered row count of column `column_no`.
    pub fn column_count(&self, column_no: usize) -> (r: Result<usize, TableError>)
        requires
            self.wf(),
        ensures
            column_no < self.spec_columns().len() ==> r == Ok::<usize, TableError>(
                self.spec_columns()[column_no as int].spec_count() as usize,
            ),
            column_no >= self.spec_columns().len() ==> (r matches Err(e) && e is IndexOutOfRange),
    {
        if column_no >= self.columns.len() {
            return Err(TableError::IndexOutOfRange);
        }
        assert(self.columns@[column_no as int].wf());
        Ok(self.columns[column_no].count())
    }
}

/// Columns without pages buffer nothing.
proof fn lemma_empty_columns_size(columns: Seq<ColumnBuilder>)
    requires
        forall|i: int| 0 <= i < columns.len() ==> (#[trigger] columns[i]).spec_pages().len() == 0,
    ensures
        columns_size(columns) == 0,
    decreases columns.len(),
{
    if columns.len() > 0 {
        let init = columns.drop_last();
        assert forall|i: int| 0 <= i < init.len() implies (#[trigger] init[i]).spec_pages().len()
            == 0 by {
            assert(init[i] == columns[i]);
        }
        lemma_empty_columns_size(init);
        assert(columns[columns.len() - 1].spec_pages().len() == 0);
    }
}

} // verus!
