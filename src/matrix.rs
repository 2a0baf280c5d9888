//! Rows of a table turned into its columns.
use vstd::prelude::*;

verus! {

/// The rows of a matrix, each seen as a sequence.
pub open spec fn row_views<T>(m: Seq<Vec<T>>) -> Seq<Seq<T>> {
    m.map_values(|row: Vec<T>| row@)
}

/// Column `c` of the rows `m`: entry `c` of every row long enough to hold one,
/// in row order.
pub open spec fn column_of<T>(m: Seq<Seq<T>>, c: int) -> Seq<T>
    decreases m.len(),
{
    if m.len() == 0 {
        Seq::empty()
    } else {
        let init = column_of(m.drop_last(), c);
        if 0 <= c < m.last().len() {
            init.push(m.last()[c])
        } else {
            init
        }
    }
}

/// `col` is a copy, entry by entry, of column `c` of `m`.
pub open spec fn copies_column<T: Clone>(m: Seq<Seq<T>>, c: int, col: Seq<T>) -> bool {
    &&& col.len() == column_of(m, c).len()
    &&& forall|k: int| 0 <= k < col.len() ==> cloned(column_of(m, c)[k], #[trigger] col[k])
}

/// Column `c` of `matrix`, copied.
fn copy_column<T: Clone>(matrix: &[Vec<T>], c: usize) -> (col: Vec<T>)
    ensures
        copies_column(row_views(matrix@), c as int, col@),
{
    let ghost m = row_views(matrix@);
    let mut col: Vec<T> = Vec::new();
    let mut r: usize = 0;
    while r < matrix.len()
        invariant
            r <= matrix@.len(),
            m == row_views(matrix@),
            copies_column(m.subrange(0, r as int), c as int, col@),
        decreases matrix@.len() - r,
    {
        let ghost before = m.subrange(0, r as int);
        let ghost after = m.subrange(0, r + 1);
        assert(after.drop_last() == before);
        assert(after.last() == matrix@[r as int]@);
        if c < matrix[r].len() {
            col.push(matrix[r][c].clone());
        }
        r = r + 1;
    }
    assert(m.subrange(0, matrix@.len() as int) == m);
    col
}

/// Transposes a matrix given as rows: column `c` of the result holds entry `c`
/// of each row in turn. There are as many columns as the first row has
/// entries; a shorter row gives nothing to the columns it lacks, and entries
/// beyond the first row's length are left out.
pub fn transpose<T: Clone>(matrix: &[Vec<T>]) -> (r: Vec<Vec<T>>)
    ensures
        matrix@.len() == 0 ==> r@.len() == 0,
        matrix@.len() > 0 ==> r@.len() == matrix@[0]@.len(),
        forall|c: int| 0 <= c < r@.len() ==> copies_column(row_views(matrix@), c, #[trigger] r@[c]@),
{
    let mut transposed: Vec<Vec<T>> = Vec::new();
    if matrix.len() == 0 {
        return transposed;
    }
    let width = matrix[0].len();
    let mut c: usize = 0;
    while c < width
        invariant
            c <= width,
            width == matrix@[0]@.len(),
            transposed@.len() == c,
            forall|j: int| 0 <= j < c ==> copies_column(row_views(matrix@), j, #[trigger] transposed@[j]@),
        decreases width - c,
    {
        let col = copy_column(matrix, c);
        transposed.push(col);
        c = c + 1;
    }
    transposed
}

} // verus!
