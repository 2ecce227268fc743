use vstd::prelude::*;
use datafusion::arrow::array::{Array, StringArray};
use datafusion::arrow::array::{Date32Array, Date64Array, Float32Array, Float64Array};
use datafusion::arrow::array::{Int16Array, Int32Array, Int64Array, Int8Array};
use datafusion::arrow::array::{UInt16Array, UInt32Array, UInt64Array, UInt8Array};
use datafusion::arrow::datatypes::DataType;
use datafusion::arrow::record_batch::RecordBatch;
use crate::scalar::{Scalar, ScalarView};
use crate::Error;

verus! {

/// A column-major batch of rows: an Arrow record batch.
///
/// The record batch is opaque to the proofs. What it holds is named by
/// `batch_height` and `batch_columns`, and it is read only through the
/// methods of this type that call into Arrow; each of them states what the
/// Arrow method gives, over those two names.
#[verifier::external_body]
pub struct Batch {
    /// The record batch itself. Arrow makes it with as many cells in every
    /// column as the batch has rows.
    pub inner: RecordBatch,
}

/// The declared type of a column, as far as the row adapter tells types
/// apart: the kinds it reads, and one variant for every other type.
#[derive(Debug, Clone, Copy, PartialEq, Eq)]
pub enum ColumnType {
    Utf8,
    Int8,
    Int16,
    Int32,
    Int64,
    UInt8,
    UInt16,
    UInt32,
    UInt64,
    Float32,
    Float64,
    Date32,
    Date64,
    Unsupported,
}

/// What a batch holds in one column: the declared type, and the cells from
/// the first row to the last. A null cell is `ScalarView::Null`.
pub struct Column {
    pub kind: ColumnType,
    pub cells: Seq<ScalarView>,
}

/// The number of rows of a batch. It is kept apart from the columns: a
/// batch without columns still has a row count.
pub uninterp spec fn batch_height(batch: Batch) -> nat;

/// The columns of a batch, in schema order: of each its declared type and
/// its cells, a null cell as the null marker and any other cell of a
/// supported type as the value under that type's variant.
pub uninterp spec fn batch_columns(batch: Batch) -> Seq<Column>;

impl Batch {
    /// The number of rows.
    pub open spec fn height(&self) -> nat {
        batch_height(*self)
    }

    /// The number of columns.
    pub open spec fn width(&self) -> nat {
        batch_columns(*self).len()
    }

    /// The declared type of a column.
    pub open spec fn kind(&self, column: int) -> ColumnType {
        batch_columns(*self)[column].kind
    }

    /// The cell of a column at a row.
    pub open spec fn cell(&self, column: int, row: int) -> ScalarView {
        batch_columns(*self)[column].cells[row]
    }

    /// A cell that cannot be read: it is not null and its column has a
    /// type outside the supported kinds.
    pub open spec fn unreadable(&self, column: int, row: int) -> bool {
        self.kind(column) is Unsupported && !(self.cell(column, row) is Null)
    }

    /// The first column at or after `from` whose cell in `row` cannot be
    /// read.
    pub open spec fn first_unreadable(&self, row: int, from: int) -> Option<int>
        decreases self.width() - from,
    {
        if from < 0 || from >= self.width() {
            None
        } else if self.unreadable(from, row) {
            Some(from)
        } else {
            self.first_unreadable(row, from + 1)
        }
    }

    /// The cells of one row, in column order.
    pub open spec fn row(&self, row: int) -> Seq<ScalarView> {
        Seq::new(self.width(), |column: int| self.cell(column, row))
    }

    /// What reading one row gives: its cells, or the first column that
    /// cannot be read.
    pub open spec fn read(&self, row: int) -> Result<Seq<ScalarView>, int> {
        match self.first_unreadable(row, 0) {
            Some(column) => Err(column),
            None => Ok(self.row(row)),
        }
    }

    /// `RecordBatch::num_rows`: the row count that the batch was made with.
    #[verifier::external_body]
    pub(crate) fn num_rows(&self) -> (n: usize)
        ensures
            n == batch_height(*self),
    {
        self.inner.num_rows()
    }

    /// `RecordBatch::num_columns`: the number of columns of the batch.
    #[verifier::external_body]
    pub(crate) fn num_columns(&self) -> (n: usize)
        ensures
            n == batch_columns(*self).len(),
    {
        self.inner.num_columns()
    }

    /// `Array::data_type` of the column that `RecordBatch::column` gives,
    /// told apart by variant: each supported type as its own kind, every
    /// other type as `Unsupported`. `RecordBatch::column` panics on an index
    /// that is no column, so such an index is left out.
    #[verifier::external_body]
    pub(crate) fn column_type(&self, column: usize) -> (kind: ColumnType)
        requires
            column < batch_columns(*self).len(),
        ensures
            kind == batch_columns(*self)[column as int].kind,
    {
        match self.inner.column(column).data_type() {
            DataType::Utf8 => ColumnType::Utf8,
            DataType::Int8 => ColumnType::Int8, DataType::UInt8 => ColumnType::UInt8,
            DataType::Int16 => ColumnType::Int16, DataType::UInt16 => ColumnType::UInt16,
            DataType::Int32 => ColumnType::Int32, DataType::UInt32 => ColumnType::UInt32,
            DataType::Int64 => ColumnType::Int64, DataType::UInt64 => ColumnType::UInt64,
            DataType::Float32 => ColumnType::Float32, DataType::Float64 => ColumnType::Float64,
            DataType::Date32 => ColumnType::Date32, DataType::Date64 => ColumnType::Date64,
            _ => ColumnType::Unsupported,
        }
    }

    /// `Array::is_null` of one column at one row: whether the validity
    /// bitmap marks the cell null. It panics on a row that the column does
    /// not have, so such a row is left out.
    #[verifier::external_body]
    pub(crate) fn is_null(&self, column: usize, row: usize) -> (null: bool)
        requires
            column < batch_columns(*self).len(),
            row < batch_height(*self),
        ensures
            null == (batch_columns(*self)[column as int].cells[row as int] is Null),
    {
        self.inner.column(column).is_null(row)
    }

    /// `StringArray::value` of a text column at a row that is not null, as
    /// an owned string. The downcast to `StringArray` holds for a column of
    /// type `Utf8` and panics for any other, and `value` panics on a row that
    /// the column does not have: both are left out. So it is with the
    /// methods for the other types below.
    #[verifier::external_body]
    pub(crate) fn utf8_at(&self, column: usize, row: usize) -> (value: String)
        requires
            column < batch_columns(*self).len(),
            row < batch_height(*self),
            batch_columns(*self)[column as int].kind is Utf8,
            !(batch_columns(*self)[column as int].cells[row as int] is Null),
        ensures
            batch_columns(*self)[column as int].cells[row as int] == ScalarView::Utf8(value@),
    {
        let array = self.inner.column(column).as_any().downcast_ref::<StringArray>().unwrap();
        array.value(row).to_string()
    }

    /// `Int8Array::value` of an `Int8` column at a row that is not null.
    #[verifier::external_body]
    pub(crate) fn int8_at(&self, column: usize, row: usize) -> (value: i8)
        requires
            column < batch_columns(*self).len(),
            row < batch_height(*self),
            batch_columns(*self)[column as int].kind is Int8,
            !(batch_columns(*self)[column as int].cells[row as int] is Null),
        ensures
            batch_columns(*self)[column as int].cells[row as int] == ScalarView::Int8(value),
    {
        self.inner.column(column).as_any().downcast_ref::<Int8Array>().unwrap().value(row)
    }

    /// `Int16Array::value` of an `Int16` column at a row that is not null.
    #[verifier::external_body]
    pub(crate) fn int16_at(&self, column: usize, row: usize) -> (value: i16)
        requires
            column < batch_columns(*self).len(),
            row < batch_height(*self),
            batch_columns(*self)[column as int].kind is Int16,
            !(batch_columns(*self)[column as int].cells[row as int] is Null),
        ensures
            batch_columns(*self)[column as int].cells[row as int] == ScalarView::Int16(value),
    {
        self.inner.column(column).as_any().downcast_ref::<Int16Array>().unwrap().value(row)
    }

    /// `Int32Array::value` of an `Int32` column at a row that is not null.
    #[verifier::external_body]
    pub(crate) fn int32_at(&self, column: usize, row: usize) -> (value: i32)
        requires
            column < batch_columns(*self).len(),
            row < batch_height(*self),
            batch_columns(*self)[column as int].kind is Int32,
            !(batch_columns(*self)[column as int].cells[row as int] is Null),
        ensures
            batch_columns(*self)[column as int].cells[row as int] == ScalarView::Int32(value),
    {
        self.inner.column(column).as_any().downcast_ref::<Int32Array>().unwrap().value(row)
    }

    /// `Int64Array::value` of an `Int64` column at a row that is not null.
    #[verifier::external_body]
    pub(crate) fn int64_at(&self, column: usize, row: usize) -> (value: i64)
        requires
            column < batch_columns(*self).len(),
            row < batch_height(*self),
            batch_columns(*self)[column as int].kind is Int64,
            !(batch_columns(*self)[column as int].cells[row as int] is Null),
        ensures
            batch_columns(*self)[column as int].cells[row as int] == ScalarView::Int64(value),
    {
        self.inner.column(column).as_any().downcast_ref::<Int64Array>().unwrap().value(row)
    }

    /// `UInt8Array::value` of a `UInt8` column at a row that is not null.
    #[verifier::external_body]
    pub(crate) fn uint8_at(&self, column: usize, row: usize) -> (value: u8)
        requires
            column < batch_columns(*self).len(),
            row < batch_height(*self),
            batch_columns(*self)[column as int].kind is UInt8,
            !(batch_columns(*self)[column as int].cells[row as int] is Null),
        ensures
            batch_columns(*self)[column as int].cells[row as int] == ScalarView::UInt8(value),
    {
        self.inner.column(column).as_any().downcast_ref::<UInt8Array>().unwrap().value(row)
    }

    /// `UInt16Array::value` of a `UInt16` column at a row that is not null.
    #[verifier::external_body]
    pub(crate) fn uint16_at(&self, column: usize, row: usize) -> (value: u16)
        requires
            column < batch_columns(*self).len(),
            row < batch_height(*self),
            batch_columns(*self)[column as int].kind is UInt16,
            !(batch_columns(*self)[column as int].cells[row as int] is Null),
        ensures
            batch_columns(*self)[column as int].cells[row as int] == ScalarView::UInt16(value),
    {
        self.inner.column(column).as_any().downcast_ref::<UInt16Array>().unwrap().value(row)
    }

    /// `UInt32Array::value` of a `UInt32` column at a row that is not null.
    #[verifier::external_body]
    pub(crate) fn uint32_at(&self, column: usize, row: usize) -> (value: u32)
        requires
            column < batch_columns(*self).len(),
            row < batch_height(*self),
            batch_columns(*self)[column as int].kind is UInt32,
            !(batch_columns(*self)[column as int].cells[row as int] is Null),
        ensures
            batch_columns(*self)[column as int].cells[row as int] == ScalarView::UInt32(value),
    {
        self.inner.column(column).as_any().downcast_ref::<UInt32Array>().unwrap().value(row)
    }

    /// `UInt64Array::value` of a `UInt64` column at a row that is not null.
    #[verifier::external_body]
    pub(crate) fn uint64_at(&self, column: usize, row: usize) -> (value: u64)
        requires
            column < batch_columns(*self).len(),
            row < batch_height(*self),
            batch_columns(*self)[column as int].kind is UInt64,
            !(batch_columns(*self)[column as int].cells[row as int] is Null),
        ensures
            batch_columns(*self)[column as int].cells[row as int] == ScalarView::UInt64(value),
    {
        self.inner.column(column).as_any().downcast_ref::<UInt64Array>().unwrap().value(row)
    }

    /// `Float32Array::value` of a `Float32` column at a row that is not
    /// null, handed out as the bits of the float.
    #[verifier::external_body]
    pub(crate) fn float32_at(&self, column: usize, row: usize) -> (bits: u32)
        requires
            column < batch_columns(*self).len(),
            row < batch_height(*self),
            batch_columns(*self)[column as int].kind is Float32,
            !(batch_columns(*self)[column as int].cells[row as int] is Null),
        ensures
            batch_columns(*self)[column as int].cells[row as int] == ScalarView::Float32(bits),
    {
        let array = self.inner.column(column).as_any().downcast_ref::<Float32Array>().unwrap();
        array.value(row).to_bits()
    }

    /// `Float64Array::value` of a `Float64` column at a row that is not
    /// null, handed out as the bits of the float.
    #[verifier::external_body]
    pub(crate) fn float64_at(&self, column: usize, row: usize) -> (bits: u64)
        requires
            column < batch_columns(*self).len(),
            row < batch_height(*self),
            batch_columns(*self)[column as int].kind is Float64,
            !(batch_columns(*self)[column as int].cells[row as int] is Null),
        ensures
            batch_columns(*self)[column as int].cells[row as int] == ScalarView::Float64(bits),
    {
        let array = self.inner.column(column).as_any().downcast_ref::<Float64Array>().unwrap();
        array.value(row).to_bits()
    }

    /// `Date32Array::value` of a `Date32` column at a row that is not null.
    #[verifier::external_body]
    pub(crate) fn date32_at(&self, column: usize, row: usize) -> (value: i32)
        requires
            column < batch_columns(*self).len(),
            row < batch_height(*self),
            batch_columns(*self)[column as int].kind is Date32,
            !(batch_columns(*self)[column as int].cells[row as int] is Null),
        ensures
            batch_columns(*self)[column as int].cells[row as int] == ScalarView::Date32(value),
    {
        self.inner.column(column).as_any().downcast_ref::<Date32Array>().unwrap().value(row)
    }

    /// `Date64Array::value` of a `Date64` column at a row that is not null.
    #[verifier::external_body]
    pub(crate) fn date64_at(&self, column: usize, row: usize) -> (value: i64)
        requires
            column < batch_columns(*self).len(),
            row < batch_height(*self),
            batch_columns(*self)[column as int].kind is Date64,
            !(batch_columns(*self)[column as int].cells[row as int] is Null),
        ensures
            batch_columns(*self)[column as int].cells[row as int] == ScalarView::Date64(value),
    {
        self.inner.column(column).as_any().downcast_ref::<Date64Array>().unwrap().value(row)
    }

    /// The number of rows of the batch.
    pub fn row_count(&self) -> (n: usize)
        ensures
            n == self.height(),
    {
        self.num_rows()
    }

    /// The number of columns of the batch.
    pub fn column_count(&self) -> (n: usize)
        ensures
            n == self.width(),
    {
        self.num_columns()
    }

    /// Reads one cell: the null marker where the cell is null, else the
    /// value under the variant of the column's declared type. A cell that
    /// is not null in a column of another type is an error.
    pub fn read_cell(&self, column: usize, row: usize) -> (r: Result<Scalar, Error>)
        requires
            column < self.width(),
            row < self.height(),
        ensures
            match r {
                Ok(value) => !self.unreadable(column as int, row as int) && value@ == self.cell(
                    column as int,
                    row as int,
                ),
                Err(e) => self.unreadable(column as int, row as int) && e == (Error::UnsupportedType {
                    column,
                }),
            },
    {
        if self.is_null(column, row) {
            Ok(Scalar::Null)
        } else {
            match self.column_type(column) {
                ColumnType::Utf8 => Ok(Scalar::Utf8(self.utf8_at(column, row))),
                ColumnType::Int8 => Ok(Scalar::Int8(self.int8_at(column, row))),
                ColumnType::Int16 => Ok(Scalar::Int16(self.int16_at(column, row))),
                ColumnType::Int32 => Ok(Scalar::Int32(self.int32_at(column, row))),
                ColumnType::Int64 => Ok(Scalar::Int64(self.int64_at(column, row))),
                ColumnType::UInt8 => Ok(Scalar::UInt8(self.uint8_at(column, row))),
                ColumnType::UInt16 => Ok(Scalar::UInt16(self.uint16_at(column, row))),
                ColumnType::UInt32 => Ok(Scalar::UInt32(self.uint32_at(column, row))),
                ColumnType::UInt64 => Ok(Scalar::UInt64(self.uint64_at(column, row))),
                ColumnType::Float32 => Ok(Scalar::Float32(self.float32_at(column, row))),
                ColumnType::Float64 => Ok(Scalar::Float64(self.float64_at(column, row))),
                ColumnType::Date32 => Ok(Scalar::Date32(self.date32_at(column, row))),
                ColumnType::Date64 => Ok(Scalar::Date64(self.date64_at(column, row))),
                ColumnType::Unsupported => Err(Error::UnsupportedType { column }),
            }
        }
    }

    /// Reads one cell as `read_cell` does, if the batch has that column and
    /// that row; `None` where it has not.
    pub fn try_read_cell(&self, column: usize, row: usize) -> (r: Option<Result<Scalar, Error>>)
        ensures
            match r {
                Some(Ok(value)) => {
                    &&& column < self.width()
                    &&& row < self.height()
                    &&& !self.unreadable(column as int, row as int)
                    &&& value@ == self.cell(column as int, row as int)
                },
                Some(Err(e)) => {
                    &&& column < self.width()
                    &&& row < self.height()
                    &&& self.unreadable(column as int, row as int)
                    &&& e == (Error::UnsupportedType { column })
                },
                None => column >= self.width() || row >= self.height(),
            },
    {
        if column < self.num_columns() && row < self.num_rows() {
            Some(self.read_cell(column, row))
        } else {
            None
        }
    }

    /// Reads one row, cell by cell in column order, and stops at the first
    /// cell that cannot be read.
    pub fn read_row(&self, row: usize) -> (r: Result<Vec<Scalar>, Error>)
        requires
            row < self.height(),
        ensures
            match (r, self.read(row as int)) {
                (Ok(cells), Ok(expected)) => cells.deep_view() == expected,
                (Err(e), Err(column)) => e == (Error::UnsupportedType { column: column as usize })
                    && 0 <= column < self.width(),
                _ => false,
            },
    {
        let width = self.num_columns();
        let mut cells: Vec<Scalar> = Vec::with_capacity(width);
        let mut column: usize = 0;
        while column < width
            invariant
                width == self.width(),
                row < self.height(),
                column <= width,
                cells.len() == column,
                forall|c: int| 0 <= c < column ==> (#[trigger] cells[c])@ == self.cell(c, row as int),
                self.first_unreadable(row as int, 0) == self.first_unreadable(
                    row as int,
                    column as int,
                ),
            decreases width - column,
        {
            match self.read_cell(column, row) {
                Ok(value) => {
                    cells.push(value);
                },
                Err(e) => {
                    return Err(e);
                },
            }
            column += 1;
        }
        assert(cells.deep_view() =~= self.row(row as int));
        Ok(cells)
    }

    /// Reads one row as `read_row` does, if the batch has that row; `None`
    /// where it has not.
    pub fn try_read_row(&self, row: usize) -> (r: Option<Result<Vec<Scalar>, Error>>)
        ensures
            match r {
                Some(found) => row < self.height() && match (found, self.read(row as int)) {
                    (Ok(cells), Ok(expected)) => cells.deep_view() == expected,
                    (Err(e), Err(column)) => e == (Error::UnsupportedType {
                        column: column as usize,
                    }) && 0 <= column < self.width(),
                    _ => false,
                },
                None => row >= self.height(),
            },
    {
        if row < self.num_rows() {
            Some(self.read_row(row))
        } else {
            None
        }
    }
}

/// What reading every row of one batch gives, from its first row to its last.
pub open spec fn batch_rows(batch: Batch) -> Seq<Result<Seq<ScalarView>, int>> {
    Seq::new(batch.height(), |row: int| batch.read(row))
}

/// The number of rows of a dataset: the sum of the heights of its batches.
pub open spec fn total_rows(batches: Seq<Batch>) -> nat
    decreases batches.len(),
{
    if batches.len() == 0 {
        0
    } else {
        total_rows(batches.drop_last()) + batches.last().height()
    }
}

/// The rows of a dataset in order: the rows of the first batch, then those
/// of the second, and so on. Each row stands as what reading it gives.
pub open spec fn dataset_rows(batches: Seq<Batch>) -> Seq<Result<Seq<ScalarView>, int>>
    decreases batches.len(),
{
    if batches.len() == 0 {
        Seq::empty()
    } else {
        dataset_rows(batches.drop_last()) + batch_rows(batches.last())
    }
}

/// A dataset has as many rows as its batches have together.
pub proof fn lemma_dataset_len(batches: Seq<Batch>)
    ensures
        dataset_rows(batches).len() == total_rows(batches),
    decreases batches.len(),
{
    if batches.len() > 0 {
        lemma_dataset_len(batches.drop_last());
    }
}

/// The rows before batch `k + 1` are those before batch `k` and those of
/// batch `k`.
pub proof fn lemma_total_step(batches: Seq<Batch>, k: int)
    requires
        0 <= k < batches.len(),
    ensures
        total_rows(batches.take(k + 1)) == total_rows(batches.take(k)) + batches[k].height(),
{
    assert(batches.take(k + 1).drop_last() =~= batches.take(k));
}

/// A prefix of a dataset has no more rows than the dataset.
pub proof fn lemma_total_prefix(batches: Seq<Batch>, k: int)
    requires
        0 <= k <= batches.len(),
    ensures
        total_rows(batches.take(k)) <= total_rows(batches),
    decreases batches.len() - k,
{
    if k < batches.len() {
        lemma_total_step(batches, k);
        lemma_total_prefix(batches, k + 1);
    } else {
        assert(batches.take(k) =~= batches);
    }
}

/// Row `offset` of batch `k` stands in the dataset behind all rows of the
/// batches before `k`.
pub proof fn lemma_dataset_index(batches: Seq<Batch>, k: int, offset: int)
    requires
        0 <= k < batches.len(),
        0 <= offset < batches[k].height(),
    ensures
        total_rows(batches.take(k)) + offset < dataset_rows(batches).len(),
        dataset_rows(batches)[total_rows(batches.take(k)) + offset] == batches[k].read(offset),
    decreases batches.len(),
{
    let front = batches.drop_last();
    lemma_dataset_len(front);
    lemma_dataset_len(batches);
    if k == batches.len() - 1 {
        assert(batches.take(k) =~= front);
    } else {
        lemma_dataset_index(front, k, offset);
        assert(front.take(k) =~= batches.take(k));
    }
}

/// The number of rows of a dataset, or `None` where it does not fit the
/// machine's word.
pub fn count_rows(batches: &Vec<Batch>) -> (count: Option<usize>)
    ensures
        match count {
            Some(n) => n == total_rows(batches@),
            None => total_rows(batches@) > usize::MAX,
        },
{
    let mut total: usize = 0;
    let mut index: usize = 0;
    while index < batches.len()
        invariant
            index <= batches.len(),
            total == total_rows(batches@.take(index as int)),
        decreases batches.len() - index,
    {
        let height = batches[index].num_rows();
        proof {
            lemma_total_step(batches@, index as int);
            lemma_total_prefix(batches@, index + 1);
        }
        if height > usize::MAX - total {
            return None;
        }
        total += height;
        index += 1;
    }
    assert(batches@.take(index as int) =~= batches@);
    Some(total)
}

} // verus!
