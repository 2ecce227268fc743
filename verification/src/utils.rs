use vstd::prelude::*;
use crate::batch::{dataset_rows, lemma_dataset_index, lemma_dataset_len, lemma_total_step};
use crate::batch::{count_rows, total_rows, Batch};
use crate::scalar::{Scalar, ScalarView};
use crate::text::{push_char, str_equals};
use crate::{Error, FileFormat};
use std::path::Path;

verus! {

/// `std::path::Path`: a path as the operating system takes it, which need
/// not be text. It is carried through unseen.
#[verifier::external_type_specification]
#[verifier::external_body]
pub struct ExPath(Path);

/// The extension of a file name as `Path::extension` gives it on the
/// platform that the crate is built for: the part of the path's last
/// component behind its final dot, where that component has one that it
/// does not begin with.
pub uninterp spec fn extension_of(filename: Seq<char>) -> Option<Seq<char>>;

/// The text of a path as `Path::to_str` gives it: `None` where the path is
/// not valid Unicode.
pub uninterp spec fn path_text(path: &Path) -> Option<Seq<char>>;

/// `Path::extension` of a file name, as text: the result is what
/// `extension_of` names. Of that, no more is claimed than the documentation
/// of `Path::extension` gives for every path: a name without a dot has no
/// extension, and an extension holds no dot. The name is text, so its
/// extension is turned into a string without loss.
#[verifier::external_body]
fn path_extension(filename: &str) -> (ending: Option<String>)
    ensures
        match ending {
            Some(text) => extension_of(filename@) == Some(text@) && !text@.contains('.'),
            None => extension_of(filename@) is None,
        },
        !filename@.contains('.') ==> ending is None,
{
    match Path::new(filename).extension() {
        Some(ending) => Some(ending.to_string_lossy().into_owned()),
        None => None,
    }
}

/// `Path::to_str`: the path as text, if it is valid Unicode; the result is
/// what `path_text` names.
#[verifier::external_body]
fn path_to_str(path: &Path) -> (text: Option<&str>)
    ensures
        match text {
            Some(s) => path_text(path) == Some(s@),
            None => path_text(path) is None,
        },
{
    path.to_str()
}

/// The format that a file extension stands for.
pub open spec fn format_of(ending: Seq<char>) -> Option<FileFormat> {
    if ending == "avro"@ {
        Some(FileFormat::Avro)
    } else if ending == "csv"@ {
        Some(FileFormat::Csv)
    } else if ending == "json"@ {
        Some(FileFormat::Json)
    } else if ending == "parquet"@ || ending == "parq"@ {
        Some(FileFormat::Parquet)
    } else {
        None
    }
}

/// The message for an extension that stands for no format.
pub open spec fn unsupported_extension_message(ending: Seq<char>) -> Seq<char> {
    "unsupported file extension '"@ + ending + "'"@
}

/// The format that a file extension stands for, if any.
pub fn known_format(ending: &str) -> (format: Option<FileFormat>)
    ensures
        format == format_of(ending@),
{
    if str_equals(ending, "avro") {
        Some(FileFormat::Avro)
    } else if str_equals(ending, "csv") {
        Some(FileFormat::Csv)
    } else if str_equals(ending, "json") {
        Some(FileFormat::Json)
    } else if str_equals(ending, "parquet") || str_equals(ending, "parq") {
        Some(FileFormat::Parquet)
    } else {
        None
    }
}

/// The format for a file extension; any other extension is an error that
/// quotes it.
pub fn format_for_ending(ending: &str) -> (r: Result<FileFormat, Error>)
    ensures
        match r {
            Ok(format) => format_of(ending@) == Some(format),
            Err(e) => format_of(ending@) is None && e.is_general(unsupported_extension_message(ending@)),
        },
{
    match known_format(ending) {
        Some(format) => Ok(format),
        None => {
            let mut message = String::from_str("unsupported file extension '");
            message.append(ending);
            message.append("'");
            Err(Error::General(message))
        },
    }
}

/// An extension that was found, or the error for a name that has none.
pub fn ending_or_error(ending: Option<String>) -> (r: Result<String, Error>)
    ensures
        match r {
            Ok(text) => ending == Some(text),
            Err(e) => ending is None && e.is_general("Could not determine file extension"@),
        },
{
    match ending {
        Some(text) => Ok(text),
        None => Err(Error::General(String::from_str("Could not determine file extension"))),
    }
}

/// The extension of a file name, without its dot.
pub fn file_ending(filename: &str) -> (r: Result<String, Error>)
    ensures
        match r {
            Ok(text) => extension_of(filename@) == Some(text@) && !text@.contains('.'),
            Err(e) => extension_of(filename@) is None && e.is_general("Could not determine file extension"@),
        },
        !filename@.contains('.') ==> r is Err,
{
    ending_or_error(path_extension(filename))
}

/// The format of a file, told by its extension.
pub fn file_format(filename: &str) -> (r: Result<FileFormat, Error>)
    ensures
        match extension_of(filename@) {
            None => r is Err && r->Err_0.is_general("Could not determine file extension"@),
            Some(ending) => match format_of(ending) {
                Some(format) => r == Ok::<FileFormat, Error>(format),
                None => r is Err && r->Err_0.is_general(unsupported_extension_message(ending)),
            },
        },
{
    match file_ending(filename) {
        Ok(ending) => format_for_ending(ending.as_str()),
        Err(e) => Err(e),
    }
}

/// A path that was found to be text, or the error for one that is not.
pub fn filename_or_error(text: Option<&str>) -> (r: Result<&str, Error>)
    ensures
        match r {
            Ok(s) => text == Some(s),
            Err(e) => text is None && e.is_general("Invalid filename"@),
        },
{
    match text {
        Some(s) => Ok(s),
        None => Err(Error::General(String::from_str("Invalid filename"))),
    }
}

/// A path as text; a path that is not valid Unicode is an error.
pub fn parse_filename(filename: &Path) -> (r: Result<&str, Error>)
    ensures
        match r {
            Ok(s) => path_text(filename) == Some(s@),
            Err(e) => path_text(filename) is None && e.is_general("Invalid filename"@),
        },
{
    filename_or_error(path_to_str(filename))
}

/// The characters that a table name keeps: ASCII letters, ASCII digits and
/// the underscore.
pub open spec fn is_table_name_char(c: char) -> bool {
    ('0' <= c && c <= '9') || ('A' <= c && c <= 'Z') || ('a' <= c && c <= 'z') || c == '_'
}

/// A name with every character that a table name does not keep replaced by
/// an underscore.
pub open spec fn sanitized(name: Seq<char>) -> Seq<char> {
    name.map_values(|c: char| if is_table_name_char(c) { c } else { '_' })
}

/// Turns a file stem into a table name: same length, every character other
/// than an ASCII letter, an ASCII digit or `_` replaced by `_`.
pub fn sanitize_table_name(name: &str) -> (out: String)
    ensures
        out@ == sanitized(name@),
{
    let mut out = String::new();
    for ch in it: name.chars()
        invariant
            it.seq() == name@,
            out@ == sanitized(name@.take(it.index())),
    {
        let keep = ('0' <= ch && ch <= '9') || ('A' <= ch && ch <= 'Z') || ('a' <= ch && ch <= 'z')
            || ch == '_';
        if keep {
            push_char(&mut out, ch);
        } else {
            push_char(&mut out, '_');
        }
        assert(name@.take(it.index() + 1) == name@.take(it.index()).push(ch));
    }
    assert(name@.take(name@.len() as int) == name@);
    out
}

/// A forward-only cursor over the rows of a dataset: it hands out the rows
/// of the first batch in order, then those of the second, and so on, and
/// never goes back.
pub struct RowIter {
    batches: Vec<Batch>,
    current_batch: usize,
    current_batch_offset: usize,
}

impl RowIter {
    /// The batches that the cursor walks.
    pub closed spec fn batches(&self) -> Seq<Batch> {
        self.batches@
    }

    /// The cursor stands inside its batches.
    pub closed spec fn wf(&self) -> bool {
        &&& self.current_batch <= self.batches.len()
        &&& self.current_batch < self.batches.len() ==> self.current_batch_offset
            <= self.batches[self.current_batch as int].height()
        &&& self.current_batch == self.batches.len() ==> self.current_batch_offset == 0
    }

    /// The number of rows handed out so far.
    pub closed spec fn consumed(&self) -> nat {
        total_rows(self.batches@.take(self.current_batch as int))
            + self.current_batch_offset as nat
    }

    /// All rows of the dataset, each as what reading it gives.
    pub open spec fn rows(&self) -> Seq<Result<Seq<ScalarView>, int>> {
        dataset_rows(self.batches())
    }

    /// A cursor before the first row. Nothing is read yet.
    pub fn new(batches: Vec<Batch>) -> (it: RowIter)
        ensures
            it.wf(),
            it.batches() == batches@,
            it.consumed() == 0,
    {
        RowIter { batches, current_batch: 0, current_batch_offset: 0 }
    }

    /// The number of rows of the dataset, or `None` where it does not fit
    /// the machine's word. No row is read for it.
    pub fn total(&self) -> (count: Option<usize>)
        ensures
            match count {
                Some(n) => n == self.rows().len(),
                None => self.rows().len() > usize::MAX,
            },
    {
        proof {
            lemma_dataset_len(self.batches@);
        }
        count_rows(&self.batches)
    }

    /// Hands out the next row, or `None` behind the last one.
    ///
    /// Exhausted and empty batches are passed over. A row with a cell that
    /// cannot be read gives the error with that cell's column; the cursor
    /// has then moved past that row.
    pub fn next(&mut self) -> (r: Result<Option<Vec<Scalar>>, Error>)
        requires
            old(self).wf(),
        ensures
            final(self).wf(),
            final(self).batches() == old(self).batches(),
            old(self).consumed() <= old(self).rows().len(),
            match r {
                Ok(None) => {
                    &&& old(self).consumed() == old(self).rows().len()
                    &&& final(self).consumed() == old(self).consumed()
                },
                Ok(Some(cells)) => {
                    &&& old(self).consumed() < old(self).rows().len()
                    &&& old(self).rows()[old(self).consumed() as int] == Ok::<Seq<ScalarView>, int>(
                        cells.deep_view(),
                    )
                    &&& final(self).consumed() == old(self).consumed() + 1
                },
                Err(e) => {
                    &&& old(self).consumed() < old(self).rows().len()
                    &&& old(self).rows()[old(self).consumed() as int] matches Err(column)
                    &&& e == (Error::UnsupportedType { column: column as usize })
                    &&& final(self).consumed() == old(self).consumed() + 1
                },
            },
    {
        while self.current_batch < self.batches.len()
            invariant
                self.wf(),
                self.batches@ == old(self).batches@,
                self.consumed() == old(self).consumed(),
            decreases self.batches.len() - self.current_batch,
        {
            let height = self.batches[self.current_batch].num_rows();
            if self.current_batch_offset < height {
                let row_index = self.current_batch_offset;
                self.current_batch_offset += 1;
                proof {
                    lemma_dataset_index(
                        self.batches@,
                        self.current_batch as int,
                        row_index as int,
                    );
                }
                return match self.batches[self.current_batch].read_row(row_index) {
                    Ok(cells) => Ok(Some(cells)),
                    Err(e) => Err(e),
                };
            } else {
                proof {
                    lemma_total_step(self.batches@, self.current_batch as int);
                }
                self.current_batch += 1;
                self.current_batch_offset = 0;
            }
        }
        proof {
            assert(self.batches@.take(self.current_batch as int) =~= self.batches@);
            lemma_dataset_len(self.batches@);
        }
        Ok(None)
    }
}

} // verus!
