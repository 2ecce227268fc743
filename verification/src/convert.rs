use vstd::prelude::*;
use crate::utils::{extension_of, file_format, format_of, unsupported_extension_message};
use crate::{Error, FileFormat};

verus! {

/// The formats that a table can be written in.
#[derive(Debug, Clone, Copy, PartialEq, Eq)]
pub enum OutputFormat {
    Csv,
    Json,
    Parquet,
}

/// What a conversion writes for a target format: CSV, JSON and Parquet as
/// they are, and nothing for the others.
pub open spec fn conversion_of(format: FileFormat) -> Option<OutputFormat> {
    match format {
        FileFormat::Csv => Some(OutputFormat::Csv),
        FileFormat::Json => Some(OutputFormat::Json),
        FileFormat::Parquet => Some(OutputFormat::Parquet),
        _ => None,
    }
}

/// The format to write a conversion in, for the format of its target;
/// Avro is an error. No file name stands for Arrow, and that format is
/// left out.
pub fn conversion_target(format: FileFormat) -> (r: Result<OutputFormat, Error>)
    requires
        !(format is Arrow),
    ensures
        match conversion_of(format) {
            Some(output) => r == Ok::<OutputFormat, Error>(output),
            None => r is Err && r->Err_0.is_general("Conversion to Avro is not supported"@),
        },
{
    match format {
        FileFormat::Csv => Ok(OutputFormat::Csv),
        FileFormat::Json => Ok(OutputFormat::Json),
        FileFormat::Parquet => Ok(OutputFormat::Parquet),
        _ => Err(Error::General(String::from_str("Conversion to Avro is not supported"))),
    }
}

/// The format to write a conversion in, told by the extension of the
/// target file.
pub fn output_format(output_filename: &str) -> (r: Result<OutputFormat, Error>)
    ensures
        match extension_of(output_filename@) {
            None => r is Err && r->Err_0.is_general("Could not determine file extension"@),
            Some(ending) => match format_of(ending) {
                None => r is Err && r->Err_0.is_general(unsupported_extension_message(ending)),
                Some(format) => match conversion_of(format) {
                    Some(output) => r == Ok::<OutputFormat, Error>(output),
                    None => r is Err && r->Err_0.is_general(
                        "Conversion to Avro is not supported"@,
                    ),
                },
            },
        },
{
    match file_format(output_filename) {
        Ok(format) => conversion_target(format),
        Err(e) => Err(e),
    }
}

} // verus!
