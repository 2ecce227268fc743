use vstd::prelude::*;
use crate::compare::ComparisonResult;
use crate::text::{append_decimal, decimal_digits, str_equals};
use crate::Error;
use std::path::PathBuf;

verus! {

/// The formats that the rows of a query can be saved in.
#[derive(Debug, Clone, Copy, PartialEq, Eq)]
pub enum QueryOutput {
    Csv,
    Parquet,
}

/// The format that the extension of an output file stands for.
pub open spec fn query_output_of(ending: Option<Seq<char>>) -> Option<QueryOutput> {
    match ending {
        Some(text) => {
            if text == "csv"@ {
                Some(QueryOutput::Csv)
            } else if text == "parquet"@ {
                Some(QueryOutput::Parquet)
            } else {
                None
            }
        },
        None => None,
    }
}

/// The format to save the rows of a query in, told by the extension of the
/// output file; a file without extension, or with another one, is an
/// error.
pub fn query_output(ending: Option<&str>) -> (r: Result<QueryOutput, Error>)
    ensures
        match query_output_of(
            match ending {
                Some(text) => Some(text@),
                None => None,
            },
        ) {
            Some(output) => r == Ok::<QueryOutput, Error>(output),
            None => r is Err && r->Err_0.is_general(
                "Unsupported file format for saving query results"@,
            ),
        },
{
    match ending {
        Some(text) => {
            if str_equals(text, "csv") {
                return Ok(QueryOutput::Csv);
            } else if str_equals(text, "parquet") {
                return Ok(QueryOutput::Parquet);
            }
        },
        None => {},
    }
    Err(Error::General(String::from_str("Unsupported file format for saving query results")))
}

/// The number of rows to show of a file: ten where none is asked for, and
/// `None`, which stands for all rows, where zero is asked for.
pub fn view_limit(limit: Option<usize>) -> (shown: Option<usize>)
    ensures
        shown == match limit {
            None => Some(10usize),
            Some(n) => if n > 0 {
                Some(n)
            } else {
                None
            },
        },
{
    let wanted: usize = match limit {
        Some(n) => n,
        None => 10,
    };
    if wanted > 0 {
        Some(wanted)
    } else {
        None
    }
}

/// The notice that follows a limited view.
pub open spec fn limit_notice_text(limit: nat) -> Seq<char> {
    "Limiting to "@ + decimal_digits(limit) + " rows. Run with --limit 0 to remove limit."@
}

/// The notice that follows a limited view.
pub fn limit_notice(limit: usize) -> (text: String)
    ensures
        text@ == limit_notice_text(limit as nat),
{
    let mut text = String::from_str("Limiting to ");
    append_decimal(&mut text, limit as u64);
    text.append(" rows. Run with --limit 0 to remove limit.");
    text
}

/// The statement that counts the rows of a table.
pub fn count_query(table_name: &str) -> (sql: String)
    ensures
        sql@ == "SELECT COUNT(*) FROM "@ + table_name@,
{
    let mut sql = String::from_str("SELECT COUNT(*) FROM ");
    sql.append(table_name);
    sql
}

/// `std::path::PathBuf`: an owned path. It is carried through unseen.
#[verifier::external_type_specification]
#[verifier::external_body]
pub struct ExPathBuf(PathBuf);

/// Where the statement of a query comes from.
pub enum Statement {
    /// The statement itself.
    Inline(String),
    /// A file that holds the statement.
    FromFile(PathBuf),
}

/// Where the statement of a query comes from: it is given either inline or
/// by a file, never both and never neither.
pub fn statement_source(sql: Option<String>, sql_file: Option<PathBuf>) -> (source: Statement)
    requires
        (sql is Some) != (sql_file is Some),
    ensures
        match source {
            Statement::Inline(text) => sql == Some(text),
            Statement::FromFile(file) => sql is None && sql_file == Some(file),
        },
{
    match sql {
        Some(text) => Statement::Inline(text),
        None => match sql_file {
            Some(file) => Statement::FromFile(file),
            None => unreached(),
        },
    }
}

/// The exit status of a comparison that ran to its end: 0 for a match and
/// 1 for a difference. A difference is an outcome, not a failure of the
/// tool, and has a status of its own.
pub fn comparison_status(found: &ComparisonResult) -> (status: i32)
    ensures
        status == if found@ is Match {
            0i32
        } else {
            1i32
        },
{
    match found {
        ComparisonResult::Match => 0,
        _ => 1,
    }
}

} // verus!
