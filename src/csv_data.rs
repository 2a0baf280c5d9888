//! Tables read from CSV text: a header line, `#` comment lines, and records of
//! one fixed length, separated by commas.
use vstd::prelude::*;
use crate::matrix::{column_of, copies_column, row_views, transpose};

verus! {

#[verifier::external_type_specification]
#[verifier::external_body]
pub struct ExCsvError(csv::Error);

/// A failure concerning a file, with the path of that file.
#[derive(Debug)]
pub struct FileIoError<T> {
    pub path: String,
    pub source: T,
}

/// The byte that starts a comment line.
pub const COMMENT_BYTE: u8 = 0x23;

/// The byte that separates the fields of a record.
pub const DELIMITER_BYTE: u8 = 0x2c;

/// The records, header aside, that the CSV reader finds in `text`, each as its
/// fields; `None` where the reader fails.
pub uninterp spec fn csv_records(text: Seq<u8>, comment: u8, delimiter: u8) -> Option<Seq<Seq<Seq<char>>>>;

/// Rows of fields, each field seen as its characters.
pub open spec fn field_rows(rows: Seq<Vec<String>>) -> Seq<Seq<Seq<char>>> {
    rows.map_values(|row: Vec<String>| row@.map_values(|f: String| f@))
}

/// The records of a CSV read, all of the same length.
pub open spec fn is_rigid(rs: Seq<Seq<Seq<char>>>) -> bool {
    forall|i: int| 0 <= i < rs.len() ==> #[trigger] rs[i].len() == rs[0].len()
}

/// Relies on csv::ReaderBuilder (header expected, the given comment byte and
/// delimiter, records of one length) and on StringRecordsIter: the records
/// after the header, each as its fields, or the first error met. With
/// `flexible(false)` the reader fails on a record whose length differs from the
/// first one's.
#[verifier::external_body]
fn read_records(text: &[u8], comment: u8, delimiter: u8) -> (r: Result<Vec<Vec<String>>, csv::Error>)
    ensures
        r is Ok <==> csv_records(text@, comment, delimiter) is Some,
        r matches Ok(rows) ==> csv_records(text@, comment, delimiter) == Some(field_rows(rows@)),
        r matches Ok(rows) ==> is_rigid(field_rows(rows@)),
{
    let mut reader = csv::ReaderBuilder::new()
        .has_headers(true)
        .comment(Some(comment))
        .flexible(false)
        .delimiter(delimiter)
        .from_reader(text);
    reader.records().map(|rec| rec.map(|rec| rec.iter().map(|f| f.to_string()).collect())).collect()
}

/// The records of the CSV text `text`, read from the file at `path`, one row
/// of fields each.
pub fn deserialize_csv_rows(path: &String, text: &[u8]) -> (r: Result<Vec<Vec<String>>, FileIoError<csv::Error>>)
    ensures
        r is Ok <==> csv_records(text@, COMMENT_BYTE, DELIMITER_BYTE) is Some,
        r matches Ok(rows) ==> csv_records(text@, COMMENT_BYTE, DELIMITER_BYTE) == Some(field_rows(rows@)),
        r matches Ok(rows) ==> is_rigid(field_rows(rows@)),
        r matches Err(e) ==> e.path == path,
{
    match read_records(text, COMMENT_BYTE, DELIMITER_BYTE) {
        Ok(rows) => Ok(rows),
        Err(source) => Err(FileIoError { path: path.clone(), source }),
    }
}

/// The columns of rows of fields, as many as the first row has fields.
pub open spec fn columns_of(rs: Seq<Seq<Seq<char>>>) -> Seq<Seq<Seq<char>>> {
    if rs.len() == 0 {
        Seq::empty()
    } else {
        Seq::new(rs[0].len(), |c: int| column_of(rs, c))
    }
}

proof fn lemma_column_of_views(m: Seq<Seq<String>>, c: int)
    ensures
        column_of(m.map_values(|row: Seq<String>| row.map_values(|f: String| f@)), c)
            == column_of(m, c).map_values(|f: String| f@),
    decreases m.len(),
{
    let v = m.map_values(|row: Seq<String>| row.map_values(|f: String| f@));
    if m.len() > 0 {
        assert(v.drop_last() == m.drop_last().map_values(|row: Seq<String>| row.map_values(|f: String| f@)));
        lemma_column_of_views(m.drop_last(), c);
    }
    assert(column_of(v, c) == column_of(m, c).map_values(|f: String| f@));
}

/// The columns of the CSV text `text`, read from the file at `path`: column `c`
/// holds field `c` of every record in turn.
pub fn deserialize_csv_column_vectors(path: &String, text: &[u8]) -> (r: Result<Vec<Vec<String>>, FileIoError<csv::Error>>)
    ensures
        r is Ok <==> csv_records(text@, COMMENT_BYTE, DELIMITER_BYTE) is Some,
        r matches Ok(cols) ==> field_rows(cols@) == columns_of(csv_records(text@, COMMENT_BYTE, DELIMITER_BYTE)->Some_0),
        r matches Err(e) ==> e.path == path,
{
    let rows = deserialize_csv_rows(path, text)?;
    let cols = transpose(rows.as_slice());
    proof {
        let m = row_views(rows@);
        let rs = field_rows(rows@);
        assert(rs == m.map_values(|row: Seq<String>| row.map_values(|f: String| f@)));
        assert forall|c: int| 0 <= c < cols@.len() implies #[trigger] field_rows(cols@)[c] == column_of(rs, c) by {
            lemma_column_of_views(m, c);
            assert(copies_column(m, c, cols@[c]@));
            assert(cols@[c]@ == column_of(m, c));
        }
        assert(field_rows(cols@) == columns_of(rs));
    }
    Ok(cols)
}


/// The columns of each of several CSV texts, each paired with the path it was
/// read from, in order; the error of the first text that fails to read.
pub fn deserialize_csv_column_vectors_from_files(files: &Vec<(String, Vec<u8>)>) -> (r: Result<Vec<Vec<Vec<String>>>, FileIoError<csv::Error>>)
    ensures
        r is Ok <==> forall|i: int| 0 <= i < files@.len() ==> (#[trigger] csv_records(files@[i].1@, COMMENT_BYTE, DELIMITER_BYTE)) is Some,
        r matches Ok(tables) ==> tables@.len() == files@.len() && forall|i: int| 0 <= i < files@.len() ==>
            field_rows(#[trigger] tables@[i]@) == columns_of(csv_records(files@[i].1@, COMMENT_BYTE, DELIMITER_BYTE)->Some_0),
        r matches Err(e) ==> exists|i: int| {
            &&& 0 <= i < files@.len()
            &&& e.path == files@[i].0
            &&& (#[trigger] csv_records(files@[i].1@, COMMENT_BYTE, DELIMITER_BYTE)) is None
            &&& forall|j: int| 0 <= j < i ==> (#[trigger] csv_records(files@[j].1@, COMMENT_BYTE, DELIMITER_BYTE)) is Some
        },
{
    let mut tables: Vec<Vec<Vec<String>>> = Vec::new();
    let mut i: usize = 0;
    while i < files.len()
        invariant
            i <= files@.len(),
            tables@.len() == i,
            forall|j: int| 0 <= j < i ==> (#[trigger] csv_records(files@[j].1@, COMMENT_BYTE, DELIMITER_BYTE)) is Some,
            forall|j: int| 0 <= j < i ==>
                field_rows(#[trigger] tables@[j]@) == columns_of(csv_records(files@[j].1@, COMMENT_BYTE, DELIMITER_BYTE)->Some_0),
        decreases files@.len() - i,
    {
        let cols = deserialize_csv_column_vectors(&files[i].0, files[i].1.as_slice());
        match cols {
            Ok(cols) => tables.push(cols),
            Err(e) => {
                assert(csv_records(files@[i as int].1@, COMMENT_BYTE, DELIMITER_BYTE) is None);
                return Err(e);
            },
        }
        i = i + 1;
    }
    Ok(tables)
}

} // verus!
