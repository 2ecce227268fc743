use std::path::{Path, PathBuf};

use bdt::utils::{ending_or_error, file_ending, file_format, filename_or_error};
use bdt::text::str_equals;
use bdt::utils::{format_for_ending, known_format, parse_filename, sanitize_table_name};
use bdt::{Error, FileFormat};

#[test]
fn table_names_keep_letters_digits_and_underscores() {
    assert_eq!(sanitize_table_name("Table_1"), "Table_1");
    assert_eq!(sanitize_table_name("azAZ09_"), "azAZ09_");
}

#[test]
fn other_characters_become_underscores() {
    assert_eq!(sanitize_table_name("my-table.v2"), "my_table_v2");
    assert_eq!(sanitize_table_name("a b/c"), "a_b_c");
    assert_eq!(sanitize_table_name("é1"), "_1");
    assert_eq!(sanitize_table_name("@[`{"), "____");
    assert_eq!(sanitize_table_name(""), "");
}

#[test]
fn sanitizing_keeps_the_number_of_characters() {
    let name = "päivä—2024.csv";
    assert_eq!(sanitize_table_name(name).chars().count(), name.chars().count());
}

#[test]
fn the_ending_is_what_follows_the_last_dot() {
    assert_eq!(file_ending("data.csv"), Ok("csv".to_string()));
    assert_eq!(file_ending("dir.d/archive.tar.gz"), Ok("gz".to_string()));
    assert_eq!(file_ending("/tmp/x.PARQUET"), Ok("PARQUET".to_string()));
}

#[test]
fn a_name_without_ending_is_an_error() {
    let expected = Err(Error::General("Could not determine file extension".to_string()));
    assert_eq!(file_ending("data"), expected);
    assert_eq!(file_ending(""), expected);
    assert_eq!(file_ending(".hidden"), expected);
    assert_eq!(file_ending("dir.d/data"), expected);
}

#[test]
fn ending_or_error_passes_an_ending_through() {
    assert_eq!(ending_or_error(Some("csv".to_string())), Ok("csv".to_string()));
    assert_eq!(
        ending_or_error(None),
        Err(Error::General("Could not determine file extension".to_string()))
    );
}

#[test]
fn formats_are_told_by_extension() {
    assert_eq!(file_format("a.avro"), Ok(FileFormat::Avro));
    assert_eq!(file_format("a.csv"), Ok(FileFormat::Csv));
    assert_eq!(file_format("a.json"), Ok(FileFormat::Json));
    assert_eq!(file_format("a.parquet"), Ok(FileFormat::Parquet));
    assert_eq!(file_format("a.parq"), Ok(FileFormat::Parquet));
}

#[test]
fn an_unknown_extension_is_quoted_in_the_error() {
    assert_eq!(
        file_format("a.txt"),
        Err(Error::General("unsupported file extension 'txt'".to_string()))
    );
    assert_eq!(
        file_format("a.CSV"),
        Err(Error::General("unsupported file extension 'CSV'".to_string()))
    );
    assert_eq!(
        format_for_ending(""),
        Err(Error::General("unsupported file extension ''".to_string()))
    );
}

#[test]
fn a_file_without_extension_has_no_format() {
    assert_eq!(
        file_format("README"),
        Err(Error::General("Could not determine file extension".to_string()))
    );
}

#[test]
fn format_for_ending_knows_each_ending() {
    assert_eq!(format_for_ending("avro"), Ok(FileFormat::Avro));
    assert_eq!(format_for_ending("csv"), Ok(FileFormat::Csv));
    assert_eq!(format_for_ending("json"), Ok(FileFormat::Json));
    assert_eq!(format_for_ending("parquet"), Ok(FileFormat::Parquet));
    assert_eq!(format_for_ending("parq"), Ok(FileFormat::Parquet));
}

#[test]
fn a_unicode_path_is_its_text() {
    let path = PathBuf::from("/data/täble.csv");
    assert_eq!(parse_filename(&path), Ok("/data/täble.csv"));
    assert_eq!(parse_filename(Path::new("rel/a.parq")), Ok("rel/a.parq"));
}

#[test]
fn strings_are_equal_by_their_characters() {
    assert!(str_equals("", ""));
    assert!(str_equals("päivä", "päivä"));
    assert!(!str_equals("csv", "CSV"));
    assert!(!str_equals("csv", "csv "));
}

#[test]
fn known_format_knows_the_five_endings_and_no_other() {
    assert_eq!(known_format("avro"), Some(FileFormat::Avro));
    assert_eq!(known_format("csv"), Some(FileFormat::Csv));
    assert_eq!(known_format("json"), Some(FileFormat::Json));
    assert_eq!(known_format("parquet"), Some(FileFormat::Parquet));
    assert_eq!(known_format("parq"), Some(FileFormat::Parquet));
    assert_eq!(known_format("arrow"), None);
    assert_eq!(known_format(""), None);
}

#[test]
fn a_path_that_is_no_text_is_an_error() {
    assert_eq!(filename_or_error(Some("a.csv")), Ok("a.csv"));
    assert_eq!(
        filename_or_error(None),
        Err(Error::General("Invalid filename".to_string()))
    );
}
