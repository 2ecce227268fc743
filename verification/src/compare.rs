use vstd::prelude::*;
use crate::batch::{count_rows, dataset_rows, lemma_dataset_len, total_rows, Batch};
use crate::scalar::{cells_agree, FloatPair, Scalar, ScalarView};
use crate::text::{append_decimal, decimal_digits, push_char};
use crate::utils::{format_of, known_format, RowIter};
use crate::{Error, FileFormat};

verus! {

/// The outcome of comparing two datasets: a match, or the first
/// difference found.
#[derive(Debug, Clone, PartialEq, Eq)]
pub enum ComparisonResult {
    /// Every row is equivalent to its counterpart.
    Match,
    /// The datasets have different numbers of rows.
    CountMismatch { left_rows: usize, right_rows: usize },
    /// The rows at index `row` have different lengths.
    RowShapeMismatch { row: usize, left: Vec<Scalar>, right: Vec<Scalar> },
    /// The rows at index `row` differ in the cell at index `column`.
    CellMismatch { row: usize, column: usize, left: Vec<Scalar>, right: Vec<Scalar> },
}

/// The mathematical value of a `ComparisonResult`.
pub enum Outcome {
    Match,
    CountMismatch { left_rows: nat, right_rows: nat },
    RowShapeMismatch { row: nat, left: Seq<ScalarView>, right: Seq<ScalarView> },
    CellMismatch { row: nat, column: nat, left: Seq<ScalarView>, right: Seq<ScalarView> },
}

impl View for ComparisonResult {
    type V = Outcome;

    open spec fn view(&self) -> Outcome {
        match self {
            ComparisonResult::Match => Outcome::Match,
            ComparisonResult::CountMismatch { left_rows, right_rows } => Outcome::CountMismatch {
                left_rows: *left_rows as nat,
                right_rows: *right_rows as nat,
            },
            ComparisonResult::RowShapeMismatch { row, left, right } => Outcome::RowShapeMismatch {
                row: *row as nat,
                left: left.deep_view(),
                right: right.deep_view(),
            },
            ComparisonResult::CellMismatch { row, column, left, right } => Outcome::CellMismatch {
                row: *row as nat,
                column: *column as nat,
                left: left.deep_view(),
                right: right.deep_view(),
            },
        }
    }
}

/// What tells a reader where two datasets differ; a match has nothing to
/// explain.
pub open spec fn explanation_text(outcome: Outcome) -> Option<Seq<char>> {
    match outcome {
        Outcome::Match => None,
        Outcome::CountMismatch { left_rows, right_rows } => Some(
            "row counts do not match: "@ + decimal_digits(left_rows) + " != "@ + decimal_digits(
                right_rows,
            ),
        ),
        Outcome::RowShapeMismatch { row, left, right } => Some(
            "row lengths do not match at index "@ + decimal_digits(row) + ": "@ + decimal_digits(
                left.len(),
            ) + " != "@ + decimal_digits(right.len()),
        ),
        Outcome::CellMismatch { row, column, left, right } => Some(
            "data does not match at row "@ + decimal_digits(row) + " column "@ + decimal_digits(
                column,
            ),
        ),
    }
}

impl ComparisonResult {
    /// The explanation of a difference, in words; `None` for a match.
    pub fn explanation(&self) -> (text: Option<String>)
        ensures
            match text {
                Some(t) => explanation_text(self@) == Some(t@),
                None => explanation_text(self@) is None,
            },
    {
        match self {
            ComparisonResult::Match => None,
            ComparisonResult::CountMismatch { left_rows, right_rows } => {
                let mut text = String::from_str("row counts do not match: ");
                append_decimal(&mut text, *left_rows as u64);
                text.append(" != ");
                append_decimal(&mut text, *right_rows as u64);
                Some(text)
            },
            ComparisonResult::RowShapeMismatch { row, left, right } => {
                let mut text = String::from_str("row lengths do not match at index ");
                append_decimal(&mut text, *row as u64);
                text.append(": ");
                append_decimal(&mut text, left.len() as u64);
                text.append(" != ");
                append_decimal(&mut text, right.len() as u64);
                Some(text)
            },
            ComparisonResult::CellMismatch { row, column, left: _, right: _ } => {
                let mut text = String::from_str("data does not match at row ");
                append_decimal(&mut text, *row as u64);
                text.append(" column ");
                append_decimal(&mut text, *column as u64);
                Some(text)
            },
        }
    }
}

/// How two rows compare.
#[derive(Debug, Clone, Copy, PartialEq, Eq)]
pub enum RowVerdict {
    /// Same length, and every cell is equivalent to its counterpart.
    Same,
    /// The rows have different lengths.
    ShapeMismatch,
    /// Same length, and the cell at this index is the first that differs.
    CellMismatch(usize),
}

/// The tolerance `tol` describes the judge: whatever `judge` answers for a
/// float pair is `tol` of that pair.
pub open spec fn decides<F: Fn(FloatPair) -> bool>(
    judge: F,
    tol: spec_fn(FloatPair) -> bool,
) -> bool {
    forall|pair: FloatPair, answer: bool| #[trigger]
        call_ensures(judge, (pair,), answer) ==> answer == tol(pair)
}

/// The tolerance that accepts no float pair: only exact equality counts.
pub open spec fn no_tolerance() -> spec_fn(FloatPair) -> bool {
    |pair: FloatPair| false
}

/// The tolerance that accepts every float pair.
pub open spec fn full_tolerance() -> spec_fn(FloatPair) -> bool {
    |pair: FloatPair| true
}

/// The first column at or after `from` in which two rows disagree under
/// `tol`.
pub open spec fn first_disagreement(
    left: Seq<ScalarView>,
    right: Seq<ScalarView>,
    tol: spec_fn(FloatPair) -> bool,
    from: int,
) -> Option<int>
    decreases left.len() - from,
{
    if from < 0 || from >= left.len() {
        None
    } else if !cells_agree(left[from], right[from], tol) {
        Some(from)
    } else {
        first_disagreement(left, right, tol, from + 1)
    }
}

/// Whether `verdict` is how the rows `left` and `right` compare under `tol`.
pub open spec fn verdict_holds(
    verdict: RowVerdict,
    left: Seq<ScalarView>,
    right: Seq<ScalarView>,
    tol: spec_fn(FloatPair) -> bool,
) -> bool {
    match verdict {
        RowVerdict::Same => left.len() == right.len() && first_disagreement(left, right, tol, 0)
            is None,
        RowVerdict::ShapeMismatch => left.len() != right.len(),
        RowVerdict::CellMismatch(column) => left.len() == right.len() && first_disagreement(
            left,
            right,
            tol,
            0,
        ) == Some(column as int),
    }
}

/// The outcome of walking two datasets of equal length in lockstep from row
/// `from` on. Each row stands as what reading it gives; the left row is read
/// before the right one, and a row that cannot be read ends the walk with
/// the column at fault.
pub open spec fn walk(
    left: Seq<Result<Seq<ScalarView>, int>>,
    right: Seq<Result<Seq<ScalarView>, int>>,
    tol: spec_fn(FloatPair) -> bool,
    from: int,
) -> Result<Outcome, int>
    decreases left.len() - from,
{
    if from < 0 || from >= left.len() {
        Ok(Outcome::Match)
    } else {
        match (left[from], right[from]) {
            (Err(column), _) => Err(column),
            (Ok(_), Err(column)) => Err(column),
            (Ok(l), Ok(r)) => {
                if l.len() != r.len() {
                    Ok(Outcome::RowShapeMismatch { row: from as nat, left: l, right: r })
                } else {
                    match first_disagreement(l, r, tol, 0) {
                        Some(column) => Ok(
                            Outcome::CellMismatch {
                                row: from as nat,
                                column: column as nat,
                                left: l,
                                right: r,
                            },
                        ),
                        None => walk(left, right, tol, from + 1),
                    }
                }
            },
        }
    }
}

/// The outcome of comparing two datasets under `tol`: a count mismatch
/// where the numbers of rows differ, whatever the rows hold; else the
/// outcome of the walk from the first row.
pub open spec fn expected(
    left: Seq<Result<Seq<ScalarView>, int>>,
    right: Seq<Result<Seq<ScalarView>, int>>,
    tol: spec_fn(FloatPair) -> bool,
) -> Result<Outcome, int> {
    if left.len() != right.len() {
        Ok(Outcome::CountMismatch { left_rows: left.len(), right_rows: right.len() })
    } else {
        walk(left, right, tol, 0)
    }
}

/// Whether `found` is the expected outcome `wanted`: the same outcome, or
/// the error for the same unreadable column.
pub open spec fn result_is(
    found: Result<ComparisonResult, Error>,
    wanted: Result<Outcome, int>,
) -> bool {
    match (found, wanted) {
        (Ok(result), Ok(outcome)) => result@ == outcome,
        (Err(e), Err(column)) => e == (Error::UnsupportedType { column: column as usize }),
        _ => false,
    }
}

/// What holds of the verdict on two rows whatever the judge answers: the
/// shape verdict goes by the lengths alone, equal rows are the same, a cell
/// reported differs from its counterpart, and every cell passed over is the
/// same as its counterpart or forms a float pair with it.
pub open spec fn verdict_holds_for_any_judge(
    verdict: RowVerdict,
    left: Seq<ScalarView>,
    right: Seq<ScalarView>,
) -> bool {
    &&& (left.len() != right.len()) == (verdict is ShapeMismatch)
    &&& left == right ==> verdict is Same
    &&& match verdict {
        RowVerdict::Same => forall|j: int|
            0 <= j < left.len() ==> cells_agree(#[trigger] left[j], right[j], full_tolerance()),
        RowVerdict::ShapeMismatch => true,
        RowVerdict::CellMismatch(column) => {
            &&& column < left.len()
            &&& left[column as int] != right[column as int]
            &&& forall|j: int|
                0 <= j < column ==> cells_agree(#[trigger] left[j], right[j], full_tolerance())
        },
    }
}

/// Compares two rows cell by cell. Cells that are not the same and form a
/// float pair are put to `tolerates`; every other difference counts.
pub fn compare_rows<F: Fn(FloatPair) -> bool>(
    left: &Vec<Scalar>,
    right: &Vec<Scalar>,
    tolerates: &F,
) -> (verdict: RowVerdict)
    requires
        forall|pair: FloatPair| call_requires(*tolerates, (pair,)),
    ensures
        verdict_holds_for_any_judge(verdict, left.deep_view(), right.deep_view()),
        forall|tol: spec_fn(FloatPair) -> bool| #[trigger]
            decides(*tolerates, tol) ==> verdict_holds(
                verdict,
                left.deep_view(),
                right.deep_view(),
                tol,
            ),
{
    if left.len() != right.len() {
        return RowVerdict::ShapeMismatch;
    }
    let ghost l = left.deep_view();
    let ghost r = right.deep_view();
    let mut column: usize = 0;
    while column < left.len()
        invariant
            left.len() == right.len(),
            l == left.deep_view(),
            r == right.deep_view(),
            column <= left.len(),
            forall|j: int| 0 <= j < column ==> cells_agree(#[trigger] l[j], r[j], full_tolerance()),
            forall|pair: FloatPair| call_requires(*tolerates, (pair,)),
            forall|tol: spec_fn(FloatPair) -> bool| #[trigger]
                decides(*tolerates, tol) ==> first_disagreement(l, r, tol, 0)
                    == first_disagreement(l, r, tol, column as int),
        decreases left.len() - column,
    {
        let a = &left[column];
        let b = &right[column];
        assert(l[column as int] == a@ && r[column as int] == b@);
        if !a.same(b) {
            let accepted = match a.float_pair(b) {
                Some(pair) => tolerates(pair),
                None => false,
            };
            if !accepted {
                assert forall|tol: spec_fn(FloatPair) -> bool| #[trigger]
                    decides(*tolerates, tol) implies verdict_holds(
                    RowVerdict::CellMismatch(column),
                    l,
                    r,
                    tol,
                ) by {
                    assert(!cells_agree(l[column as int], r[column as int], tol));
                }
                return RowVerdict::CellMismatch(column);
            }
            assert forall|tol: spec_fn(FloatPair) -> bool| #[trigger]
                decides(*tolerates, tol) implies first_disagreement(l, r, tol, 0)
                == first_disagreement(l, r, tol, column + 1) by {
                assert(cells_agree(l[column as int], r[column as int], tol));
            }
        }
        column += 1;
    }
    RowVerdict::Same
}

/// What holds of the outcome of a comparison whatever the judge answers:
/// different row counts give the count mismatch and equal ones never do,
/// the rows of a mismatch are those at its row index and do differ there,
/// and a dataset of which every row can be read matches an equal one.
pub open spec fn result_holds_for_any_judge(
    found: Result<ComparisonResult, Error>,
    left: Seq<Result<Seq<ScalarView>, int>>,
    right: Seq<Result<Seq<ScalarView>, int>>,
) -> bool {
    &&& left.len() != right.len() ==> result_is(
        found,
        Ok(Outcome::CountMismatch { left_rows: left.len(), right_rows: right.len() }),
    )
    &&& left.len() == right.len() ==> match found {
        Ok(ComparisonResult::CountMismatch { .. }) => false,
        Ok(ComparisonResult::Match) => true,
        Ok(ComparisonResult::RowShapeMismatch { row, left: a, right: b }) => {
            &&& row < left.len()
            &&& left[row as int] == Ok::<Seq<ScalarView>, int>(a.deep_view())
            &&& right[row as int] == Ok::<Seq<ScalarView>, int>(b.deep_view())
            &&& a.len() != b.len()
        },
        Ok(ComparisonResult::CellMismatch { row, column, left: a, right: b }) => {
            &&& row < left.len()
            &&& left[row as int] == Ok::<Seq<ScalarView>, int>(a.deep_view())
            &&& right[row as int] == Ok::<Seq<ScalarView>, int>(b.deep_view())
            &&& a.len() == b.len()
            &&& column < a.len()
            &&& a[column as int]@ != b[column as int]@
        },
        Err(e) => e is UnsupportedType,
    }
    &&& (left == right && forall|i: int| 0 <= i < left.len() ==> (#[trigger] left[i]) is Ok)
        ==> found == Ok::<ComparisonResult, Error>(ComparisonResult::Match)
}

/// How far two streams have been read when a comparison of them ends: not
/// at all after a count mismatch, to their ends after a match, and up to
/// the rows reported after a mismatch in a row.
pub open spec fn read_as_far_as_needed(
    found: Result<ComparisonResult, Error>,
    left_read: nat,
    right_read: nat,
    rows: nat,
) -> bool {
    match found {
        Ok(ComparisonResult::CountMismatch { .. }) => left_read == 0 && right_read == 0,
        Ok(ComparisonResult::Match) => left_read == rows && right_read == rows,
        Ok(ComparisonResult::RowShapeMismatch { row, .. }) => left_read == row + 1 && right_read
            == row + 1,
        Ok(ComparisonResult::CellMismatch { row, .. }) => left_read == row + 1 && right_read
            == row + 1,
        Err(_) => right_read <= left_read <= right_read + 1,
    }
}

/// Compares two row streams that stand before their first rows, and
/// reports the first difference.
///
/// The row counts are compared first, and no row is read where they
/// differ. Then the rows are read in lockstep, the left one first, and no
/// further than the first difference. Cells that are not the same and form a
/// float pair are put to `tolerates`; every other difference counts. A row
/// that cannot be read ends the comparison with an error.
pub fn compare_streams<F: Fn(FloatPair) -> bool>(
    left: &mut RowIter,
    right: &mut RowIter,
    tolerates: &F,
) -> (found: Result<ComparisonResult, Error>)
    requires
        old(left).wf(),
        old(right).wf(),
        old(left).consumed() == 0,
        old(right).consumed() == 0,
        old(left).rows().len() <= usize::MAX,
        old(right).rows().len() <= usize::MAX,
        forall|pair: FloatPair| call_requires(*tolerates, (pair,)),
    ensures
        final(left).wf(),
        final(right).wf(),
        final(left).batches() == old(left).batches(),
        final(right).batches() == old(right).batches(),
        result_holds_for_any_judge(found, old(left).rows(), old(right).rows()),
        forall|tol: spec_fn(FloatPair) -> bool| #[trigger]
            decides(*tolerates, tol) ==> result_is(
                found,
                expected(old(left).rows(), old(right).rows(), tol),
            ),
        read_as_far_as_needed(
            found,
            final(left).consumed(),
            final(right).consumed(),
            old(left).rows().len(),
        ),
{
    let ghost l = left.rows();
    let ghost r = right.rows();
    let left_rows = match left.total() {
        Some(n) => n,
        None => unreached(),
    };
    let right_rows = match right.total() {
        Some(n) => n,
        None => unreached(),
    };
    if left_rows != right_rows {
        return Ok(ComparisonResult::CountMismatch { left_rows, right_rows });
    }
    let mut row: usize = 0;
    loop
        invariant
            left.wf(),
            right.wf(),
            left.batches() == old(left).batches(),
            right.batches() == old(right).batches(),
            l == old(left).rows(),
            r == old(right).rows(),
            l.len() == r.len(),
            l.len() <= usize::MAX,
            left.consumed() == row,
            right.consumed() == row,
            forall|pair: FloatPair| call_requires(*tolerates, (pair,)),
            forall|tol: spec_fn(FloatPair) -> bool| #[trigger]
                decides(*tolerates, tol) ==> walk(l, r, tol, 0) == walk(l, r, tol, row as int),
        decreases l.len() - row,
    {
        let a = match left.next() {
            Ok(Some(cells)) => cells,
            Ok(None) => {
                return Ok(ComparisonResult::Match);
            },
            Err(e) => {
                return Err(e);
            },
        };
        let b = match right.next() {
            Ok(Some(cells)) => cells,
            Ok(None) => {
                return Ok(ComparisonResult::Match);
            },
            Err(e) => {
                return Err(e);
            },
        };
        match compare_rows(&a, &b, tolerates) {
            RowVerdict::Same => {},
            RowVerdict::ShapeMismatch => {
                return Ok(ComparisonResult::RowShapeMismatch { row, left: a, right: b });
            },
            RowVerdict::CellMismatch(column) => {
                return Ok(ComparisonResult::CellMismatch { row, column, left: a, right: b });
            },
        }
        assert forall|tol: spec_fn(FloatPair) -> bool| #[trigger]
            decides(*tolerates, tol) implies walk(l, r, tol, 0) == walk(l, r, tol, row + 1) by {
            assert(verdict_holds(RowVerdict::Same, a.deep_view(), b.deep_view(), tol));
        }
        row += 1;
    }
}

/// Compares two datasets row for row and cell for cell, and reports the
/// first difference: the comparison of a stream over each of them.
pub fn compare_batches<F: Fn(FloatPair) -> bool>(
    left: Vec<Batch>,
    right: Vec<Batch>,
    tolerates: F,
) -> (found: Result<ComparisonResult, Error>)
    requires
        total_rows(left@) <= usize::MAX,
        total_rows(right@) <= usize::MAX,
        forall|pair: FloatPair| call_requires(tolerates, (pair,)),
    ensures
        result_holds_for_any_judge(found, dataset_rows(left@), dataset_rows(right@)),
        forall|tol: spec_fn(FloatPair) -> bool| #[trigger]
            decides(tolerates, tol) ==> result_is(
                found,
                expected(dataset_rows(left@), dataset_rows(right@), tol),
            ),
{
    proof {
        lemma_dataset_len(left@);
        lemma_dataset_len(right@);
    }
    let mut left_iter = RowIter::new(left);
    let mut right_iter = RowIter::new(right);
    compare_streams(&mut left_iter, &mut right_iter, &tolerates)
}

/// Compares two datasets as `compare_batches` does, if both row counts fit
/// the machine's word; `None` where one of them does not. No row is read
/// to find that out.
pub fn try_compare_batches<F: Fn(FloatPair) -> bool>(
    left: Vec<Batch>,
    right: Vec<Batch>,
    tolerates: F,
) -> (found: Option<Result<ComparisonResult, Error>>)
    requires
        forall|pair: FloatPair| call_requires(tolerates, (pair,)),
    ensures
        match found {
            Some(result) => {
                &&& total_rows(left@) <= usize::MAX
                &&& total_rows(right@) <= usize::MAX
                &&& result_holds_for_any_judge(result, dataset_rows(left@), dataset_rows(right@))
                &&& forall|tol: spec_fn(FloatPair) -> bool| #[trigger]
                    decides(tolerates, tol) ==> result_is(
                        result,
                        expected(dataset_rows(left@), dataset_rows(right@), tol),
                    )
            },
            None => total_rows(left@) > usize::MAX || total_rows(right@) > usize::MAX,
        },
{
    if count_rows(&left).is_none() || count_rows(&right).is_none() {
        None
    } else {
        Some(compare_batches(left, right, tolerates))
    }
}

/// Compares two datasets with no tolerance: only cells of the same value
/// and kind are equivalent.
pub fn compare_exact(left: Vec<Batch>, right: Vec<Batch>) -> (found: Result<
    ComparisonResult,
    Error,
>)
    requires
        total_rows(left@) <= usize::MAX,
        total_rows(right@) <= usize::MAX,
    ensures
        result_is(found, expected(dataset_rows(left@), dataset_rows(right@), no_tolerance())),
{
    let never = |pair: FloatPair| -> (accepted: bool)
        ensures
            !accepted,
        { false };
    assert(decides(never, no_tolerance()));
    compare_batches(left, right, never)
}

/// What stands behind the last dot of a name; `None` for a name without a
/// dot.
pub open spec fn after_last_dot(name: Seq<char>) -> Option<Seq<char>>
    decreases name.len(),
{
    if name.len() == 0 {
        None
    } else if name.last() == '.' {
        Some(Seq::empty())
    } else {
        match after_last_dot(name.drop_last()) {
            Some(ending) => Some(ending.push(name.last())),
            None => None,
        }
    }
}

/// What `after_last_dot` gives holds no dot and ends the name, right
/// behind a dot; it gives nothing exactly for a name without a dot.
pub proof fn lemma_after_last_dot(name: Seq<char>)
    ensures
        match after_last_dot(name) {
            Some(ending) => {
                &&& !ending.contains('.')
                &&& ending.len() < name.len()
                &&& name[name.len() - ending.len() - 1] == '.'
                &&& name.skip(name.len() - ending.len()) == ending
            },
            None => !name.contains('.'),
        },
    decreases name.len(),
{
    if name.len() > 0 {
        let front = name.drop_last();
        lemma_after_last_dot(front);
        if name.last() == '.' {
            assert(name.skip(name.len() as int) =~= Seq::<char>::empty());
        } else {
            match after_last_dot(front) {
                Some(ending) => {
                    let whole = ending.push(name.last());
                    assert(name.skip(name.len() - whole.len()) =~= whole) by {
                        assert(front.skip(front.len() - ending.len()) == ending);
                        assert forall|i: int| 0 <= i < whole.len() implies name.skip(
                            name.len() - whole.len(),
                        )[i] == whole[i] by {
                            if i < ending.len() {
                                assert(front.skip(front.len() - ending.len())[i] == ending[i]);
                            }
                        }
                    }
                    assert(!whole.contains('.')) by {
                        if whole.contains('.') {
                            let i = choose|i: int| 0 <= i < whole.len() && whole[i] == '.';
                            assert(ending[i] == '.');
                        }
                    }
                },
                None => {
                    assert(!name.contains('.')) by {
                        if name.contains('.') {
                            let i = choose|i: int| 0 <= i < name.len() && name[i] == '.';
                            assert(front[i] == '.');
                        }
                    }
                },
            }
        }
    }
}

/// The message for a file whose ending stands for no format.
pub open spec fn unsupported_input_message(ending: Seq<char>) -> Seq<char> {
    "Unsupported file extension: "@ + ending
}

/// What stands behind the last dot of a file name.
pub fn ending_after_last_dot(filename: &str) -> (ending: Option<String>)
    ensures
        match ending {
            Some(text) => after_last_dot(filename@) == Some(text@),
            None => after_last_dot(filename@) is None,
        },
{
    let mut ending: Option<String> = None;
    for ch in it: filename.chars()
        invariant
            it.seq() == filename@,
            match ending {
                Some(text) => after_last_dot(filename@.take(it.index())) == Some(text@),
                None => after_last_dot(filename@.take(it.index())) is None,
            },
    {
        proof {
            let front = filename@.take(it.index());
            let next = filename@.take(it.index() + 1);
            assert(next.drop_last() =~= front);
            assert(next.last() == ch);
        }
        if ch == '.' {
            ending = Some(String::new());
        } else {
            match ending {
                Some(mut text) => {
                    push_char(&mut text, ch);
                    ending = Some(text);
                },
                None => {},
            }
        }
    }
    assert(filename@.take(filename@.len() as int) =~= filename@);
    ending
}

/// The format to read a dataset in, told by what follows the last dot of
/// its file name: `avro`, `csv`, `json`, `parquet` or `parq`. A name
/// without a dot, or with another ending, is an error.
pub fn input_format(filename: &str) -> (r: Result<FileFormat, Error>)
    ensures
        match after_last_dot(filename@) {
            None => r is Err && r->Err_0.is_general("Could not determine file extension"@),
            Some(ending) => match format_of(ending) {
                Some(format) => r == Ok::<FileFormat, Error>(format),
                None => r is Err && r->Err_0.is_general(unsupported_input_message(ending)),
            },
        },
{
    match ending_after_last_dot(filename) {
        Some(ending) => match known_format(ending.as_str()) {
            Some(format) => Ok(format),
            None => {
                let mut message = String::from_str("Unsupported file extension: ");
                message.append(ending.as_str());
                Err(Error::General(message))
            },
        },
        None => Err(Error::General(String::from_str("Could not determine file extension"))),
    }
}

/// Two rows that were both read, have one length and agree in every cell.
pub open spec fn rows_agree(
    left: Result<Seq<ScalarView>, int>,
    right: Result<Seq<ScalarView>, int>,
    tol: spec_fn(FloatPair) -> bool,
) -> bool {
    match (left, right) {
        (Ok(l), Ok(r)) => l.len() == r.len() && forall|j: int|
            0 <= j < l.len() ==> cells_agree(#[trigger] l[j], r[j], tol),
        _ => false,
    }
}

/// `first_disagreement` is the least column at or after `from` in which the
/// rows disagree, and `None` exactly where there is no such column.
pub proof fn lemma_first_disagreement_is_least(
    left: Seq<ScalarView>,
    right: Seq<ScalarView>,
    tol: spec_fn(FloatPair) -> bool,
    from: int,
)
    requires
        0 <= from,
    ensures
        match first_disagreement(left, right, tol, from) {
            Some(column) => {
                &&& from <= column < left.len()
                &&& !cells_agree(left[column], right[column], tol)
                &&& forall|j: int| from <= j < column ==> cells_agree(#[trigger] left[j], right[j], tol)
            },
            None => forall|j: int|
                from <= j < left.len() ==> cells_agree(#[trigger] left[j], right[j], tol),
        },
    decreases left.len() - from,
{
    if from < left.len() && cells_agree(left[from], right[from], tol) {
        lemma_first_disagreement_is_least(left, right, tol, from + 1);
    }
}

/// Rows that agree are passed over: the walk from `from` is the walk from
/// `to` where every row in between agrees with its counterpart.
pub proof fn lemma_walk_passes_agreeing_rows(
    left: Seq<Result<Seq<ScalarView>, int>>,
    right: Seq<Result<Seq<ScalarView>, int>>,
    tol: spec_fn(FloatPair) -> bool,
    from: int,
    to: int,
)
    requires
        0 <= from <= to <= left.len(),
        forall|i: int| from <= i < to ==> rows_agree(#[trigger] left[i], right[i], tol),
    ensures
        walk(left, right, tol, from) == walk(left, right, tol, to),
    decreases to - from,
{
    if from < to {
        assert(rows_agree(left[from], right[from], tol));
        lemma_first_disagreement_is_least(left[from]->Ok_0, right[from]->Ok_0, tol, 0);
        lemma_walk_passes_agreeing_rows(left, right, tol, from + 1, to);
    }
}

/// A dataset of which every row can be read matches itself, under any
/// tolerance.
pub proof fn lemma_self_comparison_matches(
    rows: Seq<Result<Seq<ScalarView>, int>>,
    tol: spec_fn(FloatPair) -> bool,
)
    requires
        forall|i: int| 0 <= i < rows.len() ==> (#[trigger] rows[i]) is Ok,
    ensures
        expected(rows, rows, tol) == Ok::<Outcome, int>(Outcome::Match),
{
    assert forall|i: int| 0 <= i < rows.len() implies rows_agree(#[trigger] rows[i], rows[i], tol) by {
        assert(rows[i] is Ok);
    }
    lemma_walk_passes_agreeing_rows(rows, rows, tol, 0, rows.len() as int);
}

/// Datasets with different numbers of rows give a count mismatch with both
/// counts, whatever their rows hold and whether or not they can be read.
pub proof fn lemma_count_mismatch_comes_first(
    left: Seq<Result<Seq<ScalarView>, int>>,
    right: Seq<Result<Seq<ScalarView>, int>>,
    tol: spec_fn(FloatPair) -> bool,
)
    requires
        left.len() != right.len(),
    ensures
        expected(left, right, tol) == Ok::<Outcome, int>(
            Outcome::CountMismatch { left_rows: left.len(), right_rows: right.len() },
        ),
{
}

/// Where the rows before index `k` agree and the rows at `k` were read and
/// have different lengths, the outcome is the row shape mismatch at `k`,
/// whatever the rows behind `k` hold.
pub proof fn lemma_shape_mismatch_is_reported(
    left: Seq<Result<Seq<ScalarView>, int>>,
    right: Seq<Result<Seq<ScalarView>, int>>,
    tol: spec_fn(FloatPair) -> bool,
    k: int,
)
    requires
        left.len() == right.len(),
        0 <= k < left.len(),
        forall|i: int| 0 <= i < k ==> rows_agree(#[trigger] left[i], right[i], tol),
        left[k] is Ok,
        right[k] is Ok,
        left[k]->Ok_0.len() != right[k]->Ok_0.len(),
    ensures
        expected(left, right, tol) == Ok::<Outcome, int>(
            Outcome::RowShapeMismatch {
                row: k as nat,
                left: left[k]->Ok_0,
                right: right[k]->Ok_0,
            },
        ),
{
    lemma_walk_passes_agreeing_rows(left, right, tol, 0, k);
}

/// The first divergence is the one reported: where the rows before index
/// `k` agree, the rows at `k` were read and have one length, their cells
/// before column `c` agree and those at `c` do not, the outcome is the cell
/// mismatch at row `k`, column `c`, whatever stands behind that cell.
pub proof fn lemma_first_cell_mismatch_is_reported(
    left: Seq<Result<Seq<ScalarView>, int>>,
    right: Seq<Result<Seq<ScalarView>, int>>,
    tol: spec_fn(FloatPair) -> bool,
    k: int,
    c: int,
)
    requires
        left.len() == right.len(),
        0 <= k < left.len(),
        forall|i: int| 0 <= i < k ==> rows_agree(#[trigger] left[i], right[i], tol),
        left[k] is Ok,
        right[k] is Ok,
        left[k]->Ok_0.len() == right[k]->Ok_0.len(),
        0 <= c < left[k]->Ok_0.len(),
        forall|j: int| 0 <= j < c ==> cells_agree(#[trigger] left[k]->Ok_0[j], right[k]->Ok_0[j], tol),
        !cells_agree(left[k]->Ok_0[c], right[k]->Ok_0[c], tol),
    ensures
        expected(left, right, tol) == Ok::<Outcome, int>(
            Outcome::CellMismatch {
                row: k as nat,
                column: c as nat,
                left: left[k]->Ok_0,
                right: right[k]->Ok_0,
            },
        ),
{
    lemma_walk_passes_agreeing_rows(left, right, tol, 0, k);
    lemma_first_disagreement_is_least(left[k]->Ok_0, right[k]->Ok_0, tol, 0);
}

/// A reported cell mismatch is the first divergence: every row before it
/// agrees with its counterpart, the two rows reported are those at its row
/// index, they have one length, their cells before its column agree, and
/// those at its column do not.
pub proof fn lemma_cell_mismatch_is_first(
    left: Seq<Result<Seq<ScalarView>, int>>,
    right: Seq<Result<Seq<ScalarView>, int>>,
    tol: spec_fn(FloatPair) -> bool,
    from: int,
    row: nat,
    column: nat,
    l: Seq<ScalarView>,
    r: Seq<ScalarView>,
)
    requires
        0 <= from,
        walk(left, right, tol, from) == Ok::<Outcome, int>(
            Outcome::CellMismatch { row, column, left: l, right: r },
        ),
    ensures
        from <= row < left.len(),
        forall|i: int| from <= i < row ==> rows_agree(#[trigger] left[i], right[i], tol),
        left[row as int] == Ok::<Seq<ScalarView>, int>(l),
        right[row as int] == Ok::<Seq<ScalarView>, int>(r),
        l.len() == r.len(),
        column < l.len(),
        forall|j: int| 0 <= j < column ==> cells_agree(#[trigger] l[j], r[j], tol),
        !cells_agree(l[column as int], r[column as int], tol),
    decreases left.len() - from,
{
    if from < left.len() {
        match (left[from], right[from]) {
            (Ok(a), Ok(b)) => {
                lemma_first_disagreement_is_least(a, b, tol, 0);
                if a.len() == b.len() && first_disagreement(a, b, tol, 0) is None {
                    lemma_cell_mismatch_is_first(left, right, tol, from + 1, row, column, l, r);
                }
            },
            _ => {},
        }
    }
}

/// Two datasets that can be read and are the same but for one cell, the one
/// at row `k`, column `c`: they match where that pair of cells is
/// equivalent under the tolerance, and differ in exactly that cell where it
/// is not.
pub proof fn lemma_single_differing_cell(
    left: Seq<Result<Seq<ScalarView>, int>>,
    right: Seq<Result<Seq<ScalarView>, int>>,
    tol: spec_fn(FloatPair) -> bool,
    k: int,
    c: int,
)
    requires
        left.len() == right.len(),
        forall|i: int| 0 <= i < left.len() ==> (#[trigger] left[i]) is Ok,
        forall|i: int| 0 <= i < left.len() && i != k ==> #[trigger] left[i] == right[i],
        0 <= k < left.len(),
        right[k] is Ok,
        left[k]->Ok_0.len() == right[k]->Ok_0.len(),
        0 <= c < left[k]->Ok_0.len(),
        forall|j: int|
            0 <= j < left[k]->Ok_0.len() && j != c ==> #[trigger] left[k]->Ok_0[j]
                == right[k]->Ok_0[j],
    ensures
        cells_agree(left[k]->Ok_0[c], right[k]->Ok_0[c], tol) ==> expected(left, right, tol)
            == Ok::<Outcome, int>(Outcome::Match),
        !cells_agree(left[k]->Ok_0[c], right[k]->Ok_0[c], tol) ==> expected(left, right, tol)
            == Ok::<Outcome, int>(
            Outcome::CellMismatch {
                row: k as nat,
                column: c as nat,
                left: left[k]->Ok_0,
                right: right[k]->Ok_0,
            },
        ),
{
    let l = left[k]->Ok_0;
    let r = right[k]->Ok_0;
    assert forall|i: int| 0 <= i < left.len() && i != k implies rows_agree(
        #[trigger] left[i],
        right[i],
        tol,
    ) by {
        assert(left[i] is Ok);
    }
    if cells_agree(l[c], r[c], tol) {
        assert(rows_agree(left[k], right[k], tol)) by {
            assert forall|j: int| 0 <= j < l.len() implies cells_agree(#[trigger] l[j], r[j], tol) by {
                if j != c {
                    assert(l[j] == r[j]);
                }
            }
        }
        lemma_walk_passes_agreeing_rows(left, right, tol, 0, left.len() as int);
    } else {
        assert forall|j: int| 0 <= j < c implies cells_agree(#[trigger] l[j], r[j], tol) by {
            assert(l[j] == r[j]);
        }
        lemma_first_cell_mismatch_is_reported(left, right, tol, k, c);
    }
}

} // verus!
