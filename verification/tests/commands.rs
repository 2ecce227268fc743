use std::path::PathBuf;

use bdt::command::{comparison_status, count_query, limit_notice, query_output};
use bdt::command::{statement_source, view_limit};
use bdt::command::{QueryOutput, Statement};
use bdt::compare::{ending_after_last_dot, input_format, ComparisonResult};
use bdt::scalar::Scalar;
use bdt::convert::{conversion_target, output_format, OutputFormat};
use bdt::repartition::repartition_target;
use bdt::{Error, FileFormat};

fn general(message: &str) -> Error {
    Error::General(message.to_string())
}

#[test]
fn datasets_are_read_from_every_format_that_an_ending_stands_for() {
    assert_eq!(input_format("left.avro"), Ok(FileFormat::Avro));
    assert_eq!(input_format("left.csv"), Ok(FileFormat::Csv));
    assert_eq!(input_format("left.json"), Ok(FileFormat::Json));
    assert_eq!(input_format("dir.d/right.parquet"), Ok(FileFormat::Parquet));
    assert_eq!(input_format("right.parq"), Ok(FileFormat::Parquet));
    assert_eq!(input_format("a.b.csv"), Ok(FileFormat::Csv));
}

#[test]
fn another_input_extension_is_an_error_that_names_it() {
    assert_eq!(input_format("left.txt"), Err(general("Unsupported file extension: txt")));
    assert_eq!(input_format("left.CSV"), Err(general("Unsupported file extension: CSV")));
    assert_eq!(input_format("left.arrow"), Err(general("Unsupported file extension: arrow")));
    assert_eq!(input_format("left."), Err(general("Unsupported file extension: ")));
    assert_eq!(input_format("a.csv/b"), Err(general("Unsupported file extension: csv/b")));
}

#[test]
fn an_input_without_a_dot_is_an_error() {
    assert_eq!(input_format("left"), Err(general("Could not determine file extension")));
    assert_eq!(input_format(""), Err(general("Could not determine file extension")));
}

#[test]
fn the_ending_is_taken_behind_the_last_dot() {
    assert_eq!(ending_after_last_dot("a.tar.gz"), Some("gz".to_string()));
    assert_eq!(ending_after_last_dot(".x"), Some("x".to_string()));
    assert_eq!(ending_after_last_dot("x."), Some("".to_string()));
    assert_eq!(ending_after_last_dot("x"), None);
}

#[test]
fn conversions_write_csv_json_and_parquet() {
    assert_eq!(output_format("out.csv"), Ok(OutputFormat::Csv));
    assert_eq!(output_format("out.json"), Ok(OutputFormat::Json));
    assert_eq!(output_format("out.parquet"), Ok(OutputFormat::Parquet));
    assert_eq!(output_format("out.parq"), Ok(OutputFormat::Parquet));
    assert_eq!(conversion_target(FileFormat::Json), Ok(OutputFormat::Json));
}

#[test]
fn there_is_no_conversion_to_avro() {
    let expected = Err(general("Conversion to Avro is not supported"));
    assert_eq!(output_format("out.avro"), expected);
    assert_eq!(conversion_target(FileFormat::Avro), expected);
}

#[test]
fn a_conversion_target_needs_a_known_extension() {
    assert_eq!(output_format("out"), Err(general("Could not determine file extension")));
    assert_eq!(output_format("out.xls"), Err(general("unsupported file extension 'xls'")));
}

#[test]
fn repartitioning_keeps_the_format_of_the_input() {
    assert_eq!(repartition_target(FileFormat::Csv), Ok(OutputFormat::Csv));
    assert_eq!(repartition_target(FileFormat::Json), Ok(OutputFormat::Json));
    assert_eq!(repartition_target(FileFormat::Parquet), Ok(OutputFormat::Parquet));
    assert_eq!(repartition_target(FileFormat::Avro), Err(general("Avro format is not supported")));
    assert_eq!(
        repartition_target(FileFormat::Arrow),
        Err(general("Arrow format is not supported"))
    );
}

#[test]
fn query_results_are_saved_as_csv_or_parquet() {
    assert_eq!(query_output(Some("csv")), Ok(QueryOutput::Csv));
    assert_eq!(query_output(Some("parquet")), Ok(QueryOutput::Parquet));
    let expected = Err(general("Unsupported file format for saving query results"));
    assert_eq!(query_output(Some("json")), expected);
    assert_eq!(query_output(Some("")), expected);
    assert_eq!(query_output(None), expected);
}

#[test]
fn a_view_shows_ten_rows_unless_told_otherwise() {
    assert_eq!(view_limit(None), Some(10));
    assert_eq!(view_limit(Some(3)), Some(3));
    assert_eq!(view_limit(Some(0)), None);
}

#[test]
fn the_notice_of_a_limited_view() {
    assert_eq!(limit_notice(10), "Limiting to 10 rows. Run with --limit 0 to remove limit.");
}

#[test]
fn the_statement_that_counts_rows() {
    assert_eq!(count_query("__t1__"), "SELECT COUNT(*) FROM __t1__");
}

#[test]
fn a_statement_comes_inline_or_from_a_file() {
    assert!(matches!(
        statement_source(Some("SELECT 1".to_string()), None),
        Statement::Inline(text) if text == "SELECT 1"
    ));
    assert!(matches!(
        statement_source(None, Some(PathBuf::from("q.sql"))),
        Statement::FromFile(file) if file == PathBuf::from("q.sql")
    ));
}

#[test]
fn a_match_exits_with_zero_and_a_difference_with_one() {
    assert_eq!(comparison_status(&ComparisonResult::Match), 0);
    assert_eq!(
        comparison_status(&ComparisonResult::CountMismatch { left_rows: 1, right_rows: 2 }),
        1
    );
    let row = || vec![Scalar::Int32(1)];
    assert_eq!(
        comparison_status(&ComparisonResult::RowShapeMismatch {
            row: 0,
            left: row(),
            right: vec![]
        }),
        1
    );
    assert_eq!(
        comparison_status(&ComparisonResult::CellMismatch {
            row: 0,
            column: 0,
            left: row(),
            right: vec![Scalar::Null]
        }),
        1
    );
}
