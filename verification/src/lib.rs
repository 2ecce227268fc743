//! Boring Data Tool: the verified core of a command-line tool for tabular
//! files.
//!
//! The heart of the crate is the comparison of two datasets, each a list of
//! Arrow record batches: [`utils::RowIter`] hands out the rows of a dataset
//! one by one, and [`compare::compare_batches`] walks two datasets in
//! lockstep and reports the first difference. Floats are held by their bits;
//! whether two unequal floats are close enough is the caller's to say.
//!
//! Around it stand the tool's smaller rules: which format a file name asks
//! for, how a table name is made, and what the report on a Parquet file
//! shows.

use vstd::prelude::*;

pub mod batch;
pub mod command;
pub mod compare;
pub mod convert;
pub mod parquet;
pub mod repartition;
pub mod scalar;
pub mod text;
pub mod utils;

verus! {

/// Failures of the tool itself, as opposed to differences found in the data.
#[derive(Debug, Clone, PartialEq, Eq)]
pub enum Error {
    /// A failure described by its message.
    General(String),
    /// A cell that is not null stands in a column whose type the row adapter
    /// does not read; `column` is the index of that column.
    UnsupportedType { column: usize },
}

impl Error {
    /// This error is the general one with exactly this message.
    pub open spec fn is_general(&self, message: Seq<char>) -> bool {
        match self {
            Error::General(text) => text@ == message,
            _ => false,
        }
    }
}

/// The file formats that the tool tells apart by file extension.
#[derive(Debug, Clone, Copy, PartialEq, Eq)]
pub enum FileFormat {
    Arrow,
    Avro,
    Csv,
    Json,
    Parquet,
}

} // verus!
