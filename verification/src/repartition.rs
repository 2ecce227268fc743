use vstd::prelude::*;
use crate::convert::OutputFormat;
use crate::{Error, FileFormat};

verus! {

/// The format to write the parts of a repartitioned table in: that of the
/// input, where it is CSV, JSON or Parquet.
pub fn repartition_target(format: FileFormat) -> (r: Result<OutputFormat, Error>)
    ensures
        match format {
            FileFormat::Csv => r == Ok::<OutputFormat, Error>(OutputFormat::Csv),
            FileFormat::Json => r == Ok::<OutputFormat, Error>(OutputFormat::Json),
            FileFormat::Parquet => r == Ok::<OutputFormat, Error>(OutputFormat::Parquet),
            FileFormat::Avro => r is Err && r->Err_0.is_general("Avro format is not supported"@),
            FileFormat::Arrow => r is Err && r->Err_0.is_general(
                "Arrow format is not supported"@,
            ),
        },
{
    match format {
        FileFormat::Csv => Ok(OutputFormat::Csv),
        FileFormat::Json => Ok(OutputFormat::Json),
        FileFormat::Parquet => Ok(OutputFormat::Parquet),
        FileFormat::Avro => Err(Error::General(String::from_str("Avro format is not supported"))),
        FileFormat::Arrow => Err(
            Error::General(String::from_str("Arrow format is not supported")),
        ),
    }
}

} // verus!
