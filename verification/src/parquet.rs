use vstd::prelude::*;
use crate::text::{append_decimal, append_signed_decimal, decimal, decimal_digits};
use crate::text::signed_decimal_digits;

verus! {

/// The statistics that a Parquet file keeps of one column of one row
/// group, as far as the report shows them.
#[derive(Debug, Clone, PartialEq, Eq)]
pub struct ColumnStatistics {
    /// The physical type, in words.
    pub physical_type: String,
    /// The number of distinct values, where the file has it.
    pub distinct_count: Option<u64>,
    /// The number of nulls.
    pub null_count: u64,
    /// The least and the greatest value, in words, where the file has them.
    pub min_max: Option<(String, String)>,
}

/// The text of an optional cell: `N/A` stands for what a file does not say.
pub open spec fn or_not_available(text: Option<Seq<char>>) -> Seq<char> {
    match text {
        Some(t) => t,
        None => "N/A"@,
    }
}

/// The five cells of a report row that show a column's statistics:
/// physical type, distinct values, nulls, minimum and maximum.
pub open spec fn statistics_cells(statistics: Option<ColumnStatistics>) -> Seq<Seq<char>> {
    match statistics {
        Some(s) => seq![
            s.physical_type@,
            match s.distinct_count {
                Some(n) => decimal_digits(n as nat),
                None => "N/A"@,
            },
            decimal_digits(s.null_count as nat),
            match s.min_max {
                Some(pair) => pair.0@,
                None => "N/A"@,
            },
            match s.min_max {
                Some(pair) => pair.1@,
                None => "N/A"@,
            },
        ],
        None => seq!["N/A"@, "N/A"@, "N/A"@, "N/A"@, "N/A"@],
    }
}

/// The report row of one column: its name, its logical type, and its
/// statistics.
pub open spec fn column_cells(
    name: Seq<char>,
    logical_type: Option<Seq<char>>,
    statistics: Option<ColumnStatistics>,
) -> Seq<Seq<char>> {
    seq![name, or_not_available(logical_type)] + statistics_cells(statistics)
}

/// The view of an optional text.
pub open spec fn text_of(text: Option<String>) -> Option<Seq<char>> {
    match text {
        Some(t) => Some(t@),
        None => None,
    }
}

fn not_available() -> (text: String)
    ensures
        text@ == "N/A"@,
{
    String::from_str("N/A")
}

/// The headings of the columns of the report on a row group.
pub fn column_header() -> (header: Vec<String>)
    ensures
        header.deep_view() == seq![
            "Column Name"@,
            "Logical Type"@,
            "Physical Type"@,
            "Distinct Values"@,
            "Nulls"@,
            "Min"@,
            "Max"@,
        ],
{
    let mut header: Vec<String> = Vec::new();
    header.push(String::from_str("Column Name"));
    header.push(String::from_str("Logical Type"));
    header.push(String::from_str("Physical Type"));
    header.push(String::from_str("Distinct Values"));
    header.push(String::from_str("Nulls"));
    header.push(String::from_str("Min"));
    header.push(String::from_str("Max"));
    assert(header.deep_view() =~= seq![
        "Column Name"@,
        "Logical Type"@,
        "Physical Type"@,
        "Distinct Values"@,
        "Nulls"@,
        "Min"@,
        "Max"@,
    ]);
    header
}

/// The report row of one column: always seven cells, with `N/A` for
/// whatever the file does not say.
pub fn column_row(
    name: String,
    logical_type: Option<String>,
    statistics: Option<ColumnStatistics>,
) -> (row: Vec<String>)
    ensures
        row.deep_view() == column_cells(name@, text_of(logical_type), statistics),
        row.len() == 7,
{
    let mut row: Vec<String> = Vec::new();
    row.push(name);
    match logical_type {
        Some(text) => row.push(text),
        None => row.push(not_available()),
    }
    match statistics {
        Some(found) => {
            let ColumnStatistics { physical_type, distinct_count, null_count, min_max } = found;
            row.push(physical_type);
            match distinct_count {
                Some(n) => row.push(decimal(n)),
                None => row.push(not_available()),
            }
            row.push(decimal(null_count));
            match min_max {
                Some((min, max)) => {
                    row.push(min);
                    row.push(max);
                },
                None => {
                    row.push(not_available());
                    row.push(not_available());
                },
            }
        },
        None => {
            let mut i: usize = 0;
            while i < 5
                invariant
                    i <= 5,
                    row.len() == 2 + i,
                    row[0]@ == name@,
                    row[1]@ == or_not_available(text_of(logical_type)),
                    forall|k: int| 2 <= k < row.len() ==> (#[trigger] row[k])@ == "N/A"@,
                decreases 5 - i,
            {
                row.push(not_available());
                i += 1;
            }
        },
    }
    assert(row.deep_view() =~= column_cells(name@, text_of(logical_type), statistics));
    row
}

/// The heading of the report on one row group.
pub open spec fn row_group_heading_text(index: nat, groups: nat, rows: int, bytes: int) -> Seq<
    char,
> {
    "\nRow Group "@ + decimal_digits(index) + " of "@ + decimal_digits(groups) + " contains "@
        + signed_decimal_digits(rows) + " rows and has "@ + signed_decimal_digits(bytes)
        + " bytes:\n"@
}

/// The heading of the report on one row group: its index, the number of
/// row groups, and its rows and bytes.
pub fn row_group_heading(index: usize, groups: usize, rows: i64, bytes: i64) -> (text: String)
    ensures
        text@ == row_group_heading_text(index as nat, groups as nat, rows as int, bytes as int),
{
    let mut text = String::from_str("\nRow Group ");
    append_decimal(&mut text, index as u64);
    text.append(" of ");
    append_decimal(&mut text, groups as u64);
    text.append(" contains ");
    append_signed_decimal(&mut text, rows);
    text.append(" rows and has ");
    append_signed_decimal(&mut text, bytes);
    text.append(" bytes:\n");
    text
}

/// The key and value rows of the report on a whole file.
pub open spec fn summary_cells(
    version: int,
    created_by: Option<Seq<char>>,
    rows: int,
    row_groups: nat,
) -> Seq<(Seq<char>, Seq<char>)> {
    seq![
        ("Version"@, signed_decimal_digits(version)),
        ("Created By"@, or_not_available(created_by)),
        ("Rows"@, signed_decimal_digits(rows)),
        ("Row Groups"@, decimal_digits(row_groups)),
    ]
}

/// The key and value rows of the report on a whole file: version, writer,
/// rows and row groups.
pub fn summary_rows(version: i32, created_by: Option<String>, rows: i64, row_groups: usize) -> (r:
    Vec<(String, String)>)
    ensures
        r.len() == 4,
        forall|i: int|
            0 <= i < 4 ==> ((#[trigger] r[i]).0@, r[i].1@) == summary_cells(
                version as int,
                text_of(created_by),
                rows as int,
                row_groups as nat,
            )[i],
{
    let mut r: Vec<(String, String)> = Vec::new();
    let mut version_text = String::new();
    append_signed_decimal(&mut version_text, version as i64);
    r.push((String::from_str("Version"), version_text));
    let writer = match created_by {
        Some(text) => text,
        None => not_available(),
    };
    r.push((String::from_str("Created By"), writer));
    let mut rows_text = String::new();
    append_signed_decimal(&mut rows_text, rows);
    r.push((String::from_str("Rows"), rows_text));
    r.push((String::from_str("Row Groups"), decimal(row_groups as u64)));
    r
}

} // verus!
