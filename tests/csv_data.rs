use interp_utils::csv_data::{
    deserialize_csv_column_vectors, deserialize_csv_column_vectors_from_files, deserialize_csv_rows,
};
use interp_utils::matrix::transpose;

const EXAMPLE1: &str = "a,b,c\n1.0,2.0,3.0\n4.0,5.0,6.0\n7.0,8.0,9.0\n";

fn numbers(rows: &[Vec<String>]) -> Vec<Vec<f64>> {
    rows.iter().map(|r| r.iter().map(|f| f.parse::<f64>().unwrap()).collect()).collect()
}

#[test]
fn test_deserialize_csv_rows_from_path() {
    let expected = vec![vec![1.0, 2.0, 3.0], vec![4.0, 5.0, 6.0], vec![7.0, 8.0, 9.0]];
    let path = "tests/example1.csv".to_string();
    let result = deserialize_csv_rows(&path, EXAMPLE1.as_bytes()).unwrap();
    assert_eq!(expected, numbers(&result));
}

#[test]
fn test_deserialize_csv_rows_from_path_missing() {
    let path = "tests/bad/missing_field.csv".to_string();
    let e = deserialize_csv_rows(&path, "a,b,c\n1.0,2.0,3.0\n4.0,5.0\n".as_bytes());
    assert_eq!(e.unwrap_err().path, path);
}

#[test]
fn test_deserialize_csv_rows_from_dir_path() {
    let files = vec![
        ("tests/example1.csv".to_string(), EXAMPLE1.as_bytes().to_vec()),
        ("tests/example2.csv".to_string(), "x,y\n# a comment\n1,2\n3,4\n".as_bytes().to_vec()),
    ];
    let e = deserialize_csv_column_vectors_from_files(&files).unwrap();
    assert_eq!(e.len(), 2);
    assert_eq!(numbers(&e[1]), vec![vec![1.0, 3.0], vec![2.0, 4.0]]);
}

#[test]
fn test_deserialize_csv_column_vectors_from_path() {
    let expected = vec![vec![1.0, 2.0, 3.0], vec![4.0, 5.0, 6.0], vec![7.0, 8.0, 9.0]];
    let expected = transpose(&expected);
    let path = "tests/example1.csv".to_string();
    let result = deserialize_csv_column_vectors(&path, EXAMPLE1.as_bytes()).unwrap();
    assert_eq!(expected, numbers(&result));
}

#[test]
fn comment_lines_are_skipped_and_fields_kept_as_text() {
    let path = "t.csv".to_string();
    let rows = deserialize_csv_rows(&path, "name,v\n#skip,me\nab,1e3\n".as_bytes()).unwrap();
    assert_eq!(rows, vec![vec!["ab".to_string(), "1e3".to_string()]]);
}

#[test]
fn header_only_gives_no_rows_and_no_columns() {
    let path = "t.csv".to_string();
    assert_eq!(deserialize_csv_rows(&path, "a,b\n".as_bytes()).unwrap().len(), 0);
    assert_eq!(deserialize_csv_column_vectors(&path, "a,b\n".as_bytes()).unwrap().len(), 0);
}

#[test]
fn first_failing_file_is_reported() {
    let files = vec![
        ("good.csv".to_string(), EXAMPLE1.as_bytes().to_vec()),
        ("bad.csv".to_string(), "a,b\n1\n".as_bytes().to_vec()),
        ("worse.csv".to_string(), "a\n1,2\n".as_bytes().to_vec()),
    ];
    let e = deserialize_csv_column_vectors_from_files(&files).unwrap_err();
    assert_eq!(e.path, "bad.csv");
}
