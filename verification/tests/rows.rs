use std::sync::Arc;

use datafusion::arrow::array::{ArrayRef, Date32Array, Date64Array, Float32Array, Float64Array};
use datafusion::arrow::array::{BooleanArray, Int16Array, Int32Array, Int64Array, Int8Array, StringArray};
use datafusion::arrow::array::{UInt16Array, UInt32Array, UInt64Array, UInt8Array};
use datafusion::arrow::datatypes::{Field, Schema};
use datafusion::arrow::record_batch::{RecordBatch, RecordBatchOptions};
use bdt::batch::Batch;
use bdt::scalar::Scalar;
use bdt::utils::RowIter;
use bdt::Error;

fn batch(columns: Vec<ArrayRef>) -> Batch {
    let fields: Vec<Field> = columns
        .iter()
        .enumerate()
        .map(|(i, column)| Field::new(format!("c{}", i), column.data_type().clone(), true))
        .collect();
    Batch { inner: RecordBatch::try_new(Arc::new(Schema::new(fields)), columns).unwrap() }
}

fn all_rows(batches: Vec<Batch>) -> Vec<Vec<Scalar>> {
    let mut it = RowIter::new(batches);
    let mut rows = Vec::new();
    while let Some(row) = it.next().unwrap() {
        rows.push(row);
    }
    rows
}

#[test]
fn no_batches_give_no_rows() {
    let mut it = RowIter::new(Vec::new());
    assert_eq!(it.next(), Ok(None));
    assert_eq!(it.next(), Ok(None));
}

#[test]
fn rows_come_in_batch_order_then_row_order() {
    let first = batch(vec![
        Arc::new(Int32Array::from(vec![1, 2])),
        Arc::new(StringArray::from(vec!["x", "y"])),
    ]);
    let second = batch(vec![
        Arc::new(Int32Array::from(vec![3])),
        Arc::new(StringArray::from(vec!["z"])),
    ]);
    let rows = all_rows(vec![first, second]);
    assert_eq!(
        rows,
        vec![
            vec![Scalar::Int32(1), Scalar::Utf8("x".to_string())],
            vec![Scalar::Int32(2), Scalar::Utf8("y".to_string())],
            vec![Scalar::Int32(3), Scalar::Utf8("z".to_string())],
        ]
    );
}

#[test]
fn empty_batches_are_passed_over() {
    let empty = || batch(vec![Arc::new(Int64Array::from(Vec::<i64>::new()))]);
    let full = batch(vec![Arc::new(Int64Array::from(vec![7, 8]))]);
    let rows = all_rows(vec![empty(), empty(), full, empty()]);
    assert_eq!(rows, vec![vec![Scalar::Int64(7)], vec![Scalar::Int64(8)]]);
}

#[test]
fn as_many_rows_as_the_batches_hold() {
    let heights = [3usize, 0, 5, 1];
    let batches: Vec<Batch> = heights
        .iter()
        .map(|h| batch(vec![Arc::new(UInt32Array::from(vec![9u32; *h]))]))
        .collect();
    assert_eq!(all_rows(batches).len(), 9);
}

#[test]
fn end_of_rows_is_final() {
    let mut it = RowIter::new(vec![batch(vec![Arc::new(Int8Array::from(vec![5i8]))])]);
    assert_eq!(it.next(), Ok(Some(vec![Scalar::Int8(5)])));
    assert_eq!(it.next(), Ok(None));
    assert_eq!(it.next(), Ok(None));
}

#[test]
fn every_supported_type_is_read_under_its_variant() {
    let columns: Vec<ArrayRef> = vec![
        Arc::new(StringArray::from(vec!["text"])),
        Arc::new(Int8Array::from(vec![-8i8])),
        Arc::new(Int16Array::from(vec![-16i16])),
        Arc::new(Int32Array::from(vec![-32i32])),
        Arc::new(Int64Array::from(vec![-64i64])),
        Arc::new(UInt8Array::from(vec![8u8])),
        Arc::new(UInt16Array::from(vec![16u16])),
        Arc::new(UInt32Array::from(vec![32u32])),
        Arc::new(UInt64Array::from(vec![64u64])),
        Arc::new(Float32Array::from(vec![1.5f32])),
        Arc::new(Float64Array::from(vec![-2.25f64])),
        Arc::new(Date32Array::from(vec![19000i32])),
        Arc::new(Date64Array::from(vec![1_600_000_000_000i64])),
    ];
    let rows = all_rows(vec![batch(columns)]);
    assert_eq!(
        rows,
        vec![vec![
            Scalar::Utf8("text".to_string()),
            Scalar::Int8(-8),
            Scalar::Int16(-16),
            Scalar::Int32(-32),
            Scalar::Int64(-64),
            Scalar::UInt8(8),
            Scalar::UInt16(16),
            Scalar::UInt32(32),
            Scalar::UInt64(64),
            Scalar::Float32(1.5f32.to_bits()),
            Scalar::Float64((-2.25f64).to_bits()),
            Scalar::Date32(19000),
            Scalar::Date64(1_600_000_000_000),
        ]]
    );
}

#[test]
fn null_cells_are_the_null_marker_whatever_the_type() {
    let columns: Vec<ArrayRef> = vec![
        Arc::new(Int32Array::from(vec![None, Some(4)])),
        Arc::new(StringArray::from(vec![Some("a"), None])),
        Arc::new(Float64Array::from(vec![None, None])),
    ];
    let rows = all_rows(vec![batch(columns)]);
    assert_eq!(
        rows,
        vec![
            vec![Scalar::Null, Scalar::Utf8("a".to_string()), Scalar::Null],
            vec![Scalar::Int32(4), Scalar::Null, Scalar::Null],
        ]
    );
}

#[test]
fn a_value_of_another_type_is_an_error_with_its_column() {
    let columns: Vec<ArrayRef> = vec![
        Arc::new(Int32Array::from(vec![1, 2])),
        Arc::new(BooleanArray::from(vec![true, false])),
    ];
    let mut it = RowIter::new(vec![batch(columns)]);
    assert_eq!(it.next(), Err(Error::UnsupportedType { column: 1 }));
}

#[test]
fn the_first_unreadable_column_is_the_one_named() {
    let columns: Vec<ArrayRef> = vec![
        Arc::new(BooleanArray::from(vec![None, Some(true)])),
        Arc::new(BooleanArray::from(vec![Some(true), Some(true)])),
        Arc::new(BooleanArray::from(vec![Some(true), Some(true)])),
    ];
    let mut it = RowIter::new(vec![batch(columns)]);
    assert_eq!(it.next(), Err(Error::UnsupportedType { column: 1 }));
    assert_eq!(it.next(), Err(Error::UnsupportedType { column: 0 }));
    assert_eq!(it.next(), Ok(None));
}

#[test]
fn a_null_in_a_column_of_another_type_is_still_null() {
    let columns: Vec<ArrayRef> = vec![Arc::new(BooleanArray::from(vec![None, None]))];
    let rows = all_rows(vec![batch(columns)]);
    assert_eq!(rows, vec![vec![Scalar::Null], vec![Scalar::Null]]);
}

#[test]
fn a_batch_without_columns_gives_empty_rows() {
    let options = RecordBatchOptions::new().with_row_count(Some(2));
    let inner =
        RecordBatch::try_new_with_options(Arc::new(Schema::empty()), vec![], &options).unwrap();
    let rows = all_rows(vec![Batch { inner }]);
    assert_eq!(rows, vec![Vec::<Scalar>::new(), Vec::<Scalar>::new()]);
}

#[test]
fn read_row_and_read_cell_agree_with_the_cursor() {
    let b = batch(vec![
        Arc::new(UInt8Array::from(vec![Some(1u8), None])),
        Arc::new(Int16Array::from(vec![Some(-1i16), Some(-2)])),
    ]);
    assert_eq!(b.read_cell(0, 0), Ok(Scalar::UInt8(1)));
    assert_eq!(b.read_cell(0, 1), Ok(Scalar::Null));
    assert_eq!(b.read_cell(1, 1), Ok(Scalar::Int16(-2)));
    assert_eq!(b.read_row(1), Ok(vec![Scalar::Null, Scalar::Int16(-2)]));
}

#[test]
fn a_batch_tells_its_rows_and_columns() {
    let b = batch(vec![
        Arc::new(UInt8Array::from(vec![1u8, 2, 3])),
        Arc::new(Int16Array::from(vec![1i16, 2, 3])),
    ]);
    assert_eq!(b.row_count(), 3);
    assert_eq!(b.column_count(), 2);
}

#[test]
fn reading_outside_the_batch_gives_nothing() {
    let b = batch(vec![
        Arc::new(Int32Array::from(vec![Some(1), None])),
        Arc::new(BooleanArray::from(vec![Some(true), None])),
    ]);
    assert_eq!(b.try_read_cell(0, 0), Some(Ok(Scalar::Int32(1))));
    assert_eq!(b.try_read_cell(1, 0), Some(Err(Error::UnsupportedType { column: 1 })));
    assert_eq!(b.try_read_cell(1, 1), Some(Ok(Scalar::Null)));
    assert_eq!(b.try_read_cell(2, 0), None);
    assert_eq!(b.try_read_cell(0, 2), None);
    assert_eq!(b.try_read_row(0), Some(Err(Error::UnsupportedType { column: 1 })));
    assert_eq!(b.try_read_row(1), Some(Ok(vec![Scalar::Null, Scalar::Null])));
    assert_eq!(b.try_read_row(2), None);
}
