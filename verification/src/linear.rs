//! Sparse matrices by rows, and what iterative solvers ask of their input.

use crate::dictionary;
use crate::error::{Failure, MeshError};
use crate::reals::{Real, RealKind};
use crate::text;
use vstd::prelude::*;

verus! {

/// A sparse matrix: for each row the columns and values of its entries.
#[derive(Debug)]
pub struct CsrMatrix<T> {
    rows: usize,
    cols: usize,
    row_offsets: Vec<usize>,
    col_indices: Vec<usize>,
    values: Vec<T>,
}

/// The mathematical view of a [`CsrMatrix`].
pub struct CsrView<T> {
    pub rows: nat,
    pub cols: nat,
    pub offsets: Seq<usize>,
    pub columns: Seq<usize>,
    pub values: Seq<T>,
}

/// What this library can solve, and where.
#[derive(Clone, Copy, Debug, Eq, PartialEq, Structural)]
pub struct LinearSolverCapabilities {
    pub cpu_csr: bool,
    pub cpu_jacobi: bool,
    pub cpu_conjugate_gradient: bool,
    pub gpu_linear_solvers: bool,
}

impl<T> CsrView<T> {
    /// The entries of row `row` are those from `offsets[row]` up to
    /// `offsets[row + 1]`.
    pub open spec fn valid(self) -> bool {
        &&& self.offsets.len() == self.rows + 1
        &&& self.offsets[0] == 0
        &&& self.columns.len() == self.values.len()
        &&& self.offsets[self.rows as int] == self.values.len()
        &&& forall|i: int|
            0 <= i < self.rows ==> #[trigger] self.offsets[i] <= self.offsets[i + 1]
        &&& forall|i: int| 0 <= i < self.columns.len() ==> #[trigger] self.columns[i] < self.cols
    }

    /// The entry of the first occurrence of column `column` from `at` on,
    /// before `end`.
    pub open spec fn entry_from(self, column: int, at: int, end: int) -> Option<int>
        decreases end - at,
    {
        if at >= end {
            None
        } else if self.columns[at] == column {
            Some(at)
        } else {
            self.entry_from(column, at + 1, end)
        }
    }

    /// The first entry of row `row` on the diagonal.
    pub open spec fn diagonal_entry(self, row: int) -> Option<int> {
        self.entry_from(row, self.offsets[row] as int, self.offsets[row + 1] as int)
    }

    /// The diagonal, or the first row from `at` on without a diagonal entry.
    pub open spec fn diagonal_from(self, at: int) -> Result<Seq<T>, Failure>
        decreases self.rows - at,
    {
        if at >= self.rows {
            Ok(Seq::empty())
        } else {
            match self.diagonal_entry(at) {
                None => Err(
                    Failure::InvalidInput(
                        "row "@ + text::decimal(at as nat) + " has no diagonal entry"@,
                    ),
                ),
                Some(entry) => match self.diagonal_from(at + 1) {
                    Err(failure) => Err(failure),
                    Ok(rest) => Ok(seq![self.values[entry]] + rest),
                },
            }
        }
    }

    /// The diagonal of a square matrix.
    pub open spec fn diagonal(self) -> Result<Seq<T>, Failure> {
        if self.rows != self.cols {
            Err(
                Failure::InvalidInput(
                    "diagonal extraction requires a square matrix, got "@ + text::decimal(self.rows)
                        + "x"@ + text::decimal(self.cols),
                ),
            )
        } else {
            self.diagonal_from(0)
        }
    }
}

/// Whether the offsets never decrease from row `at` on.
pub open spec fn offsets_checked(offsets: Seq<usize>, at: int) -> Result<(), Failure>
    decreases offsets.len() - at,
{
    if at + 1 >= offsets.len() {
        Ok(())
    } else if offsets[at] > offsets[at + 1] {
        Err(
            Failure::InvalidInput(
                "CSR row_offsets must be monotonic; row "@ + text::decimal(at as nat) + " has "@
                    + text::decimal(offsets[at] as nat) + " > "@ + text::decimal(
                    offsets[at + 1] as nat,
                ),
            ),
        )
    } else {
        offsets_checked(offsets, at + 1)
    }
}

/// Whether the columns from entry `at` on are below `cols`.
pub open spec fn columns_checked(columns: Seq<usize>, cols: nat, at: int) -> Result<(), Failure>
    decreases columns.len() - at,
{
    if at >= columns.len() {
        Ok(())
    } else if columns[at] >= cols {
        Err(
            Failure::InvalidInput(
                "CSR column index out of range at entry "@ + text::decimal(at as nat) + ": "@
                    + text::decimal(columns[at] as nat) + " >= "@ + text::decimal(cols),
            ),
        )
    } else {
        columns_checked(columns, cols, at + 1)
    }
}

/// Whether the arrays of a matrix fit together.
pub open spec fn layout_checked<T>(matrix: CsrView<T>) -> Result<(), Failure> {
    let nonzeros = matrix.values.len();
    if matrix.offsets.len() != matrix.rows + 1 {
        Err(
            Failure::InvalidInput(
                "CSR row_offsets length must be rows + 1 ("@ + text::decimal(matrix.rows + 1)
                    + "), got "@ + text::decimal(matrix.offsets.len()),
            ),
        )
    } else if matrix.offsets[0] != 0 {
        Err(Failure::InvalidInput("CSR row_offsets must start with zero"@))
    } else if matrix.columns.len() != nonzeros {
        Err(
            Failure::InvalidInput(
                "CSR col_indices length "@ + text::decimal(matrix.columns.len())
                    + " does not match values length "@ + text::decimal(nonzeros),
            ),
        )
    } else if matrix.offsets[matrix.rows as int] != nonzeros {
        Err(
            Failure::InvalidInput(
                "CSR final row offset must equal nnz "@ + text::decimal(nonzeros) + ", got "@
                    + text::decimal(matrix.offsets[matrix.rows as int] as nat),
            ),
        )
    } else {
        match offsets_checked(matrix.offsets, 0) {
            Err(failure) => Err(failure),
            Ok(_) => columns_checked(matrix.columns, matrix.cols, 0),
        }
    }
}

/// How many entries the first `n` rows hold.
pub open spec fn entries_before<T>(rows: Seq<Seq<(usize, T)>>, n: int) -> nat
    decreases n,
{
    if n <= 0 {
        0
    } else {
        entries_before(rows, n - 1) + rows[n - 1].len()
    }
}

/// The entries of the rows, one row behind the other.
pub open spec fn all_entries<T>(rows: Seq<Seq<(usize, T)>>) -> Seq<(usize, T)>
    decreases rows.len(),
{
    if rows.len() == 0 {
        Seq::empty()
    } else {
        all_entries(rows.drop_last()) + rows.last()
    }
}

/// The entries of rows.
pub open spec fn row_views<T>(rows: Seq<Vec<(usize, T)>>) -> Seq<Seq<(usize, T)>> {
    Seq::new(rows.len(), |i: int| rows[i]@)
}

/// Whether `matrix` holds the entries of `rows`, row by row.
pub open spec fn holds_rows<T>(matrix: CsrView<T>, rows: Seq<Seq<(usize, T)>>, cols: nat) -> bool {
    &&& matrix.rows == rows.len()
    &&& matrix.cols == cols
    &&& matrix.offsets.len() == rows.len() + 1
    &&& forall|i: int|
        0 <= i <= rows.len() ==> #[trigger] matrix.offsets[i] == entries_before(rows, i)
    &&& matrix.columns.len() == matrix.values.len()
    &&& paired(matrix.columns, matrix.values) == all_entries(rows)
}

/// Columns and values as pairs.
pub open spec fn paired<T>(columns: Seq<usize>, values: Seq<T>) -> Seq<(usize, T)> {
    Seq::new(columns.len(), |i: int| (columns[i], values[i]))
}

/// The first column of the rows that is not below `cols` decides whether rows
/// make a matrix.
pub open spec fn rows_checked<T>(rows: Seq<Seq<(usize, T)>>, cols: nat) -> Result<(), Failure> {
    columns_checked(
        Seq::new(all_entries(rows).len(), |i: int| all_entries(rows)[i].0),
        cols,
        0,
    )
}

/// A layout passes the check exactly when it is valid.
pub proof fn checked_layout_is_valid<T>(matrix: CsrView<T>)
    ensures
        layout_checked(matrix) is Ok <==> matrix.valid(),
{
    if matrix.offsets.len() == matrix.rows + 1 {
        lemma_offsets(matrix.offsets, 0);
        lemma_columns(matrix.columns, matrix.cols, 0);
        if offsets_checked(matrix.offsets, 0) is Ok {
            assert forall|i: int| 0 <= i < matrix.rows implies #[trigger] matrix.offsets[i]
                <= matrix.offsets[i + 1] by {}
        }
        if matrix.valid() {
            assert forall|i: int| 0 <= i < matrix.offsets.len() - 1 implies
                #[trigger] matrix.offsets[i] <= matrix.offsets[i + 1] by {}
        }
    }
}

proof fn lemma_offsets(offsets: Seq<usize>, at: int)
    requires
        0 <= at,
    ensures
        offsets_checked(offsets, at) is Ok <==> forall|i: int|
            at <= i < offsets.len() - 1 ==> #[trigger] offsets[i] <= offsets[i + 1],
    decreases offsets.len() - at,
{
    if at + 1 < offsets.len() {
        lemma_offsets(offsets, at + 1);
        if offsets[at] <= offsets[at + 1] {
            if offsets_checked(offsets, at) is Ok {
                assert forall|i: int| at <= i < offsets.len() - 1 implies #[trigger] offsets[i]
                    <= offsets[i + 1] by {
                    if i > at {
                        assert(at + 1 <= i);
                    }
                }
            }
        }
    }
}

proof fn lemma_columns(columns: Seq<usize>, cols: nat, at: int)
    requires
        0 <= at,
    ensures
        columns_checked(columns, cols, at) is Ok <==> forall|i: int|
            at <= i < columns.len() ==> #[trigger] columns[i] < cols,
    decreases columns.len() - at,
{
    if at < columns.len() {
        lemma_columns(columns, cols, at + 1);
        if columns[at] < cols && columns_checked(columns, cols, at) is Ok {
            assert forall|i: int| at <= i < columns.len() implies #[trigger] columns[i] < cols by {
                if i > at {
                    assert(at + 1 <= i);
                }
            }
        }
    }
}

proof fn lemma_entries_before<T>(rows: Seq<Seq<(usize, T)>>, n: int)
    requires
        0 <= n <= rows.len(),
    ensures
        all_entries(rows.take(n)).len() == entries_before(rows, n),
    decreases n,
{
    if n > 0 {
        assert(rows.take(n).drop_last() =~= rows.take(n - 1));
        lemma_entries_before(rows, n - 1);
    }
}

impl<T> View for CsrMatrix<T> {
    type V = CsrView<T>;

    closed spec fn view(&self) -> CsrView<T> {
        CsrView {
            rows: self.rows as nat,
            cols: self.cols as nat,
            offsets: self.row_offsets@,
            columns: self.col_indices@,
            values: self.values@,
        }
    }
}

fn check_offsets(offsets: &Vec<usize>) -> (out: Result<(), MeshError>)
    requires
        offsets@.len() > 0,
    ensures
        match out {
            Ok(done) => dictionary::gives(offsets_checked(offsets@, 0), done),
            Err(error) => dictionary::fails(offsets_checked(offsets@, 0), error),
        },
{
    let mut at: usize = 0;
    let last: usize = offsets.len() - 1;
    while at < last
        invariant
            at <= last,
            last == offsets@.len() - 1,
            offsets_checked(offsets@, 0) == offsets_checked(offsets@, at as int),
        decreases last - at,
    {
        if offsets[at] > offsets[at + 1] {
            let mut message = "CSR row_offsets must be monotonic; row ".to_string();
            message.append(text::number_text(at).as_str());
            message.append(" has ");
            message.append(text::number_text(offsets[at]).as_str());
            message.append(" > ");
            message.append(text::number_text(offsets[at + 1]).as_str());
            return Err(MeshError::InvalidInput(message));
        }
        at += 1;
    }
    Ok(())
}

fn check_columns(columns: &Vec<usize>, cols: usize) -> (out: Result<(), MeshError>)
    ensures
        match out {
            Ok(done) => dictionary::gives(columns_checked(columns@, cols as nat, 0), done),
            Err(error) => dictionary::fails(columns_checked(columns@, cols as nat, 0), error),
        },
{
    let mut at: usize = 0;
    while at < columns.len()
        invariant
            at <= columns@.len(),
            columns_checked(columns@, cols as nat, 0) == columns_checked(
                columns@,
                cols as nat,
                at as int,
            ),
        decreases columns@.len() - at,
    {
        if columns[at] >= cols {
            let mut message = "CSR column index out of range at entry ".to_string();
            message.append(text::number_text(at).as_str());
            message.append(": ");
            message.append(text::number_text(columns[at]).as_str());
            message.append(" >= ");
            message.append(text::number_text(cols).as_str());
            return Err(MeshError::InvalidInput(message));
        }
        at += 1;
    }
    Ok(())
}

fn push_row<T: Copy>(row: &Vec<(usize, T)>, columns: &mut Vec<usize>, values: &mut Vec<T>)
    requires
        old(columns)@.len() == old(values)@.len(),
    ensures
        final(columns)@.len() == final(values)@.len(),
        paired(final(columns)@, final(values)@) == paired(old(columns)@, old(values)@) + row@,
{
    let ghost before = paired(columns@, values@);
    let mut k: usize = 0;
    assert(before + row@.take(0) =~= before);
    while k < row.len()
        invariant
            k <= row@.len(),
            columns@.len() == values@.len(),
            paired(columns@, values@) == before + row@.take(k as int),
        decreases row@.len() - k,
    {
        let (column, value) = row[k];
        let ghost earlier = paired(columns@, values@);
        columns.push(column);
        values.push(value);
        assert(paired(columns@, values@) =~= earlier.push((column, value)));
        assert(before + row@.take(k + 1) =~= earlier.push(row@[k as int]));
        k += 1;
    }
    assert(row@.take(k as int) =~= row@);
}

proof fn lemma_offsets_ordered<T>(matrix: CsrView<T>, from: int, to: int)
    requires
        matrix.valid(),
        0 <= from <= to <= matrix.rows,
    ensures
        matrix.offsets[from] <= matrix.offsets[to],
    decreases to - from,
{
    if from < to {
        lemma_offsets_ordered(matrix, from, to - 1);
        assert(matrix.offsets[to - 1] <= matrix.offsets[to - 1 + 1]);
    }
}

proof fn lemma_offsets_bounded<T>(matrix: CsrView<T>, at: int)
    requires
        matrix.valid(),
        0 <= at <= matrix.rows,
    ensures
        matrix.offsets[at] <= matrix.columns.len(),
{
    lemma_offsets_ordered(matrix, at, matrix.rows as int);
}

fn copied(numbers: &Vec<usize>) -> (copy: Vec<usize>)
    ensures
        copy@ == numbers@,
{
    let mut copy: Vec<usize> = Vec::new();
    let mut at: usize = 0;
    while at < numbers.len()
        invariant
            at <= numbers@.len(),
            copy@ == numbers@.take(at as int),
        decreases numbers@.len() - at,
    {
        copy.push(numbers[at]);
        assert(copy@ =~= numbers@.take(at + 1));
        at += 1;
    }
    assert(copy@ =~= numbers@);
    copy
}

impl<T> CsrMatrix<T> {
    #[verifier::type_invariant]
    spec fn inv(self) -> bool {
        self@.valid()
    }

    /// A matrix of these arrays, if they fit together.
    pub fn new(
        rows: usize,
        cols: usize,
        row_offsets: Vec<usize>,
        col_indices: Vec<usize>,
        values: Vec<T>,
    ) -> (out: Result<CsrMatrix<T>, MeshError>)
        requires
            rows < usize::MAX,
        ensures
            ({
                let given = CsrView {
                    rows: rows as nat,
                    cols: cols as nat,
                    offsets: row_offsets@,
                    columns: col_indices@,
                    values: values@,
                };
                match out {
                    Ok(matrix) => layout_checked(given) is Ok && matrix@ == given,
                    Err(error) => dictionary::fails(layout_checked(given), error),
                }
            }),
    {
        let ghost given = CsrView {
            rows: rows as nat,
            cols: cols as nat,
            offsets: row_offsets@,
            columns: col_indices@,
            values: values@,
        };
        if row_offsets.len() != rows + 1 {
            let mut message = "CSR row_offsets length must be rows + 1 (".to_string();
            message.append(text::number_text(rows + 1).as_str());
            message.append("), got ");
            message.append(text::number_text(row_offsets.len()).as_str());
            return Err(MeshError::InvalidInput(message));
        }
        if row_offsets[0] != 0 {
            return Err(
                MeshError::InvalidInput("CSR row_offsets must start with zero".to_string()),
            );
        }
        if col_indices.len() != values.len() {
            let mut message = "CSR col_indices length ".to_string();
            message.append(text::number_text(col_indices.len()).as_str());
            message.append(" does not match values length ");
            message.append(text::number_text(values.len()).as_str());
            return Err(MeshError::InvalidInput(message));
        }
        if row_offsets[rows] != values.len() {
            let mut message = "CSR final row offset must equal nnz ".to_string();
            message.append(text::number_text(values.len()).as_str());
            message.append(", got ");
            message.append(text::number_text(row_offsets[rows]).as_str());
            return Err(MeshError::InvalidInput(message));
        }
        check_offsets(&row_offsets)?;
        check_columns(&col_indices, cols)?;
        proof {
            checked_layout_is_valid(given);
        }
        Ok(CsrMatrix { rows, cols, row_offsets, col_indices, values })
    }

    /// A matrix of these rows of columns and values, if every column is below
    /// `cols`.
    pub fn from_rows(rows: Vec<Vec<(usize, T)>>, cols: usize) -> (out: Result<
        CsrMatrix<T>,
        MeshError,
    >) where T: Copy
        requires
            rows@.len() < usize::MAX,
        ensures
            match out {
                Ok(matrix) => rows_checked(row_views(rows@), cols as nat) is Ok && holds_rows(
                    matrix@,
                    row_views(rows@),
                    cols as nat,
                ),
                Err(error) => dictionary::fails(
                    rows_checked(row_views(rows@), cols as nat),
                    error,
                ),
            },
    {
        let ghost all = row_views(rows@);
        let mut offsets: Vec<usize> = Vec::new();
        let mut columns: Vec<usize> = Vec::new();
        let mut values: Vec<T> = Vec::new();
        offsets.push(0);
        let mut at: usize = 0;
        assert(paired(columns@, values@) =~= all_entries(all.take(0)));
        while at < rows.len()
            invariant
                at <= rows@.len(),
                all == row_views(rows@),
                offsets@.len() == at + 1,
                forall|i: int| 0 <= i <= at ==> #[trigger] offsets@[i] == entries_before(all, i),
                columns@.len() == values@.len(),
                paired(columns@, values@) == all_entries(all.take(at as int)),
            decreases rows@.len() - at,
        {
            push_row(&rows[at], &mut columns, &mut values);
            proof {
                assert(all.take(at + 1).drop_last() =~= all.take(at as int));
                lemma_entries_before(all, at + 1);
                assert(paired(columns@, values@).len() == columns@.len());
            }
            offsets.push(columns.len());
            at += 1;
        }
        proof {
            assert(all.take(at as int) =~= all);
            let flat = all_entries(all);
            assert(paired(columns@, values@).len() == columns@.len());
            assert(columns@ =~= Seq::new(flat.len(), |i: int| flat[i].0));
            assert forall|i: int| 0 <= i < offsets@.len() - 1 implies #[trigger] offsets@[i]
                <= offsets@[i + 1] by {
                assert(offsets@[i + 1] == entries_before(all, i + 1));
            }
            lemma_offsets(offsets@, 0);
            lemma_entries_before(all, at as int);
            assert(offsets@[0] == 0);
            assert(offsets@[at as int] == columns@.len());
        }
        CsrMatrix::new(rows.len(), cols, offsets, columns, values)
    }

    /// The matrix with other values in the same places.
    pub fn with_values<U>(&self, values: Vec<U>) -> (matrix: CsrMatrix<U>)
        requires
            values@.len() == self@.values.len(),
        ensures
            matrix@ == (CsrView {
                rows: self@.rows,
                cols: self@.cols,
                offsets: self@.offsets,
                columns: self@.columns,
                values: values@,
            }),
    {
        proof {
            use_type_invariant(self);
        }
        CsrMatrix {
            rows: self.rows,
            cols: self.cols,
            row_offsets: copied(&self.row_offsets),
            col_indices: copied(&self.col_indices),
            values,
        }
    }

    /// For each entry whether it stands on the diagonal.
    pub fn on_diagonal(&self) -> (found: Vec<bool>)
        ensures
            found@.len() == self@.values.len(),
            forall|row: int, k: int|
                #![trigger self@.offsets[row], found@[k]]
                0 <= row < self@.rows && self@.offsets[row] <= k < self@.offsets[row + 1]
                    ==> found@[k] == (self@.columns[k] == row),
    {
        proof {
            use_type_invariant(self);
        }
        let ghost matrix = self@;
        let mut found: Vec<bool> = Vec::new();
        let mut row: usize = 0;
        while row < self.rows
            invariant
                row <= self.rows,
                matrix == self@,
                matrix.valid(),
                found@.len() == matrix.offsets[row as int],
                forall|r: int, k: int|
                    #![trigger matrix.offsets[r], found@[k]]
                    0 <= r < row && matrix.offsets[r] <= k < matrix.offsets[r + 1] ==> found@[k]
                        == (matrix.columns[k] == r),
            decreases self.rows - row,
        {
            let end: usize = self.row_offsets[row + 1];
            let mut at: usize = self.row_offsets[row];
            proof {
                assert(matrix.offsets[row as int] <= matrix.offsets[row + 1]);
                lemma_offsets_bounded(matrix, row + 1);
                assert forall|r: int| 0 <= r < row implies #[trigger] matrix.offsets[r + 1]
                    <= matrix.offsets[row as int] by {
                    lemma_offsets_ordered(matrix, r + 1, row as int);
                }
            }
            while at < end
                invariant
                    row < self.rows,
                    matrix == self@,
                    matrix.valid(),
                    matrix.offsets[row as int] <= at <= end,
                    end == matrix.offsets[row + 1],
                    end <= matrix.columns.len(),
                    found@.len() == at,
                    forall|r: int, k: int|
                        #![trigger matrix.offsets[r], found@[k]]
                        0 <= r < row && matrix.offsets[r] <= k < matrix.offsets[r + 1]
                            ==> found@[k] == (matrix.columns[k] == r),
                    forall|r: int|
                        0 <= r < row ==> #[trigger] matrix.offsets[r + 1]
                            <= matrix.offsets[row as int],
                    forall|k: int|
                        matrix.offsets[row as int] <= k < at ==> #[trigger] found@[k] == (
                        matrix.columns[k] == row),
                decreases end - at,
            {
                found.push(self.col_indices[at] == row);
                at += 1;
            }
            row += 1;
        }
        found
    }

    /// The number of rows.
    pub fn rows(&self) -> (rows: usize)
        ensures
            rows == self@.rows,
    {
        self.rows
    }

    /// The number of columns.
    pub fn cols(&self) -> (cols: usize)
        ensures
            cols == self@.cols,
    {
        self.cols
    }

    /// The number of entries.
    pub fn nnz(&self) -> (count: usize)
        ensures
            count == self@.values.len(),
    {
        self.values.len()
    }

    /// Where the entries of each row start, and where the last row ends.
    pub fn row_offsets(&self) -> (offsets: &[usize])
        ensures
            offsets@ == self@.offsets,
            self@.valid(),
    {
        proof {
            use_type_invariant(self);
        }
        self.row_offsets.as_slice()
    }

    /// The columns of the entries.
    pub fn col_indices(&self) -> (columns: &[usize])
        ensures
            columns@ == self@.columns,
    {
        self.col_indices.as_slice()
    }

    /// The values of the entries.
    pub fn values(&self) -> (values: &[T])
        ensures
            values@ == self@.values,
    {
        self.values.as_slice()
    }

    /// The diagonal of a square matrix: for each row the value of its first
    /// entry on the diagonal.
    pub fn diagonal(&self) -> (out: Result<Vec<T>, MeshError>) where T: Copy
        ensures
            match out {
                Ok(values) => dictionary::gives(self@.diagonal(), values@),
                Err(error) => dictionary::fails(self@.diagonal(), error),
            },
    {
        proof {
            use_type_invariant(self);
        }
        if self.rows != self.cols {
            let mut message = "diagonal extraction requires a square matrix, got ".to_string();
            message.append(text::number_text(self.rows).as_str());
            message.append("x");
            message.append(text::number_text(self.cols).as_str());
            return Err(MeshError::InvalidInput(message));
        }
        let ghost matrix = self@;
        let ghost wanted = matrix.diagonal_from(0);
        let mut values: Vec<T> = Vec::new();
        let mut row: usize = 0;
        proof {
            if let Ok(rest) = wanted {
                assert(values@ + rest =~= rest);
            }
        }
        while row < self.rows
            invariant
                row <= self.rows,
                self.rows == self.cols,
                matrix == self@,
                matrix.valid(),
                wanted == matrix.diagonal_from(0),
                wanted == prefixed(values@, matrix.diagonal_from(row as int)),
            decreases self.rows - row,
        {
            let ghost before = values@;
            match self.find_entry(row, row) {
                None => {
                    let mut message = "row ".to_string();
                    message.append(text::number_text(row).as_str());
                    message.append(" has no diagonal entry");
                    return Err(MeshError::InvalidInput(message));
                },
                Some(entry) => {
                    values.push(self.values[entry]);
                    proof {
                        if let Ok(rest) = matrix.diagonal_from(row + 1) {
                            let value = matrix.values[entry as int];
                            assert(before + (seq![value] + rest) =~= before.push(value) + rest);
                        }
                    }
                },
            }
            row += 1;
        }
        assert(values@ + Seq::<T>::empty() =~= values@);
        Ok(values)
    }

    /// The first entry of row `row` in column `column`.
    fn find_entry(&self, row: usize, column: usize) -> (found: Option<usize>)
        requires
            row < self@.rows,
        ensures
            match found {
                Some(entry) => entry < self@.values.len() && self@.entry_from(
                    column as int,
                    self@.offsets[row as int] as int,
                    self@.offsets[row + 1] as int,
                ) == Some(entry as int),
                None => self@.entry_from(
                    column as int,
                    self@.offsets[row as int] as int,
                    self@.offsets[row + 1] as int,
                ) is None,
            },
    {
        proof {
            use_type_invariant(self);
            lemma_offset_bound(self@, row + 1);
        }
        let mut at: usize = self.row_offsets[row];
        let end: usize = self.row_offsets[row + 1];
        let ghost start = at;
        while at < end
            invariant
                start <= at,
                start == self@.offsets[row as int],
                end == self@.offsets[row + 1],
                end <= self@.values.len(),
                self@.columns.len() == self@.values.len(),
                self@.entry_from(column as int, start as int, end as int) == self@.entry_from(
                    column as int,
                    at as int,
                    end as int,
                ),
            decreases end - at,
        {
            if self.col_indices[at] == column {
                return Some(at);
            }
            at += 1;
        }
        None
    }
}

/// Values in front of a result.
spec fn prefixed<T>(before: Seq<T>, rest: Result<Seq<T>, Failure>) -> Result<Seq<T>, Failure> {
    match rest {
        Ok(found) => Ok(before + found),
        Err(failure) => Err(failure),
    }
}

/// No offset is beyond the entries.
proof fn lemma_offset_bound<T>(matrix: CsrView<T>, at: int)
    requires
        matrix.valid(),
        0 <= at <= matrix.rows,
    ensures
        matrix.offsets[at] <= matrix.values.len(),
    decreases matrix.rows - at,
{
    if at < matrix.rows {
        lemma_offset_bound(matrix, at + 1);
    }
}

/// What this library can solve.
pub fn linear_solver_capabilities() -> (found: LinearSolverCapabilities)
    ensures
        found == (LinearSolverCapabilities {
            cpu_csr: true,
            cpu_jacobi: true,
            cpu_conjugate_gradient: true,
            gpu_linear_solvers: false,
        }),
{
    LinearSolverCapabilities {
        cpu_csr: true,
        cpu_jacobi: true,
        cpu_conjugate_gradient: true,
        gpu_linear_solvers: false,
    }
}

/// The message on a vector of another length.
pub open spec fn vector_line(
    what: Seq<char>,
    which: Seq<char>,
    expected: nat,
    found: nat,
) -> Seq<char> {
    what + " expected "@ + which + " with "@ + text::decimal(expected) + " entries, got "@
        + text::decimal(found)
}

fn vector_error(what: &str, which: &str, expected: usize, found: usize) -> (error: MeshError)
    ensures
        error@ == Failure::InvalidInput(
            vector_line(what@, which@, expected as nat, found as nat),
        ),
{
    let mut message = what.to_string();
    message.append(" expected ");
    message.append(which);
    message.append(" with ");
    message.append(text::number_text(expected).as_str());
    message.append(" entries, got ");
    message.append(text::number_text(found).as_str());
    MeshError::InvalidInput(message)
}

/// Whether vectors of these lengths can stand on the two sides of a product
/// with a matrix.
pub open spec fn product_checked(rows: nat, cols: nat, x: nat, y: nat) -> Result<(), Failure> {
    if x != cols {
        Err(Failure::InvalidInput(vector_line("CSR matvec"@, "x"@, cols, x)))
    } else if y != rows {
        Err(Failure::InvalidInput(vector_line("CSR matvec"@, "y"@, rows, y)))
    } else {
        Ok(())
    }
}

/// Whether vectors of these lengths can stand on the two sides of a product
/// with `matrix`.
pub fn check_product<T>(matrix: &CsrMatrix<T>, x: usize, y: usize) -> (out: Result<(), MeshError>)
    ensures
        match out {
            Ok(done) => dictionary::gives(
                product_checked(matrix@.rows, matrix@.cols, x as nat, y as nat),
                done,
            ),
            Err(error) => dictionary::fails(
                product_checked(matrix@.rows, matrix@.cols, x as nat, y as nat),
                error,
            ),
        },
{
    if x != matrix.cols() {
        return Err(vector_error("CSR matvec", "x", matrix.cols(), x));
    }
    if y != matrix.rows() {
        return Err(vector_error("CSR matvec", "y", matrix.rows(), y));
    }
    Ok(())
}

/// Whether the right-hand side of a residual has an entry for each row.
pub open spec fn residual_checked(rows: nat, rhs: nat) -> Result<(), Failure> {
    if rhs != rows {
        Err(Failure::InvalidInput(vector_line("residual"@, "rhs"@, rows, rhs)))
    } else {
        Ok(())
    }
}

/// Whether the right-hand side of a residual has an entry for each row.
pub fn check_residual<T>(matrix: &CsrMatrix<T>, rhs: usize) -> (out: Result<(), MeshError>)
    ensures
        match out {
            Ok(done) => dictionary::gives(residual_checked(matrix@.rows, rhs as nat), done),
            Err(error) => dictionary::fails(residual_checked(matrix@.rows, rhs as nat), error),
        },
{
    if rhs != matrix.rows() {
        return Err(vector_error("residual", "rhs", matrix.rows(), rhs));
    }
    Ok(())
}

/// Whether an iterative solver can work on a system: a square matrix, vectors
/// of its size and a tolerance not below zero.
pub open spec fn solve_checked(
    rows: nat,
    cols: nat,
    rhs: nat,
    initial: Option<usize>,
    tolerance: Real,
) -> Result<(), Failure> {
    if rows != cols {
        Err(
            Failure::InvalidInput(
                "iterative solvers require a square matrix, got "@ + text::decimal(rows) + "x"@
                    + text::decimal(cols),
            ),
        )
    } else if rhs != rows {
        Err(Failure::InvalidInput(vector_line("iterative solve"@, "rhs"@, rows, rhs)))
    } else if initial is Some && initial->0 != cols {
        Err(
            Failure::InvalidInput(
                vector_line("iterative solve"@, "initial guess"@, cols, initial->0 as nat),
            ),
        )
    } else if tolerance.kind == RealKind::NotFinite || tolerance.kind == RealKind::Negative {
        Err(
            Failure::InvalidInput(
                "iterative solve tolerance must be finite and non-negative, got "@
                    + tolerance.display@,
            ),
        )
    } else {
        Ok(())
    }
}

/// Whether an iterative solver can work on a system: `rhs` and `initial` are
/// the lengths of its vectors.
pub fn validate_iterative_solve_input<T>(
    matrix: &CsrMatrix<T>,
    rhs: usize,
    initial: Option<usize>,
    tolerance: &Real,
) -> (out: Result<(), MeshError>)
    ensures
        match out {
            Ok(done) => dictionary::gives(
                solve_checked(matrix@.rows, matrix@.cols, rhs as nat, initial, *tolerance),
                done,
            ),
            Err(error) => dictionary::fails(
                solve_checked(matrix@.rows, matrix@.cols, rhs as nat, initial, *tolerance),
                error,
            ),
        },
{
    if matrix.rows() != matrix.cols() {
        let mut message = "iterative solvers require a square matrix, got ".to_string();
        message.append(text::number_text(matrix.rows()).as_str());
        message.append("x");
        message.append(text::number_text(matrix.cols()).as_str());
        return Err(MeshError::InvalidInput(message));
    }
    if rhs != matrix.rows() {
        return Err(vector_error("iterative solve", "rhs", matrix.rows(), rhs));
    }
    if let Some(found) = initial {
        if found != matrix.cols() {
            return Err(vector_error("iterative solve", "initial guess", matrix.cols(), found));
        }
    }
    if tolerance.kind == RealKind::NotFinite || tolerance.kind == RealKind::Negative {
        let mut message =
            "iterative solve tolerance must be finite and non-negative, got ".to_string();
        message.append(tolerance.display.as_str());
        return Err(MeshError::InvalidInput(message));
    }
    Ok(())
}

/// What an iterative solver does next.
#[derive(Clone, Copy, Debug, Eq, PartialEq, Structural)]
pub enum SolveStep {
    /// It is done after this many iterations, and the residual is small enough.
    Converged(usize),
    /// It is done after this many iterations, and the residual is not.
    Exhausted(usize),
    /// It makes this iteration.
    Iterate(usize),
}

/// What a solver does after `done` iterations: it stops as soon as the
/// residual is small enough, and in any case after `max_iterations`.
pub open spec fn step_after(done: nat, max_iterations: nat, within: bool) -> SolveStep {
    if within {
        SolveStep::Converged(done as usize)
    } else if done >= max_iterations {
        SolveStep::Exhausted(max_iterations as usize)
    } else {
        SolveStep::Iterate((done + 1) as usize)
    }
}

/// What a solver does after `done` iterations; `within` says whether the
/// residual is small enough.
pub fn next_step(done: usize, max_iterations: usize, within: bool) -> (step: SolveStep)
    ensures
        step == step_after(done as nat, max_iterations as nat, within),
{
    if within {
        SolveStep::Converged(done)
    } else if done >= max_iterations {
        SolveStep::Exhausted(max_iterations)
    } else {
        SolveStep::Iterate(done + 1)
    }
}

proof fn lemma_entry_place<T>(rows: Seq<Seq<(usize, T)>>, n: int, row: int, k: int)
    requires
        0 <= row < n <= rows.len(),
        0 <= k < rows[row].len(),
    ensures
        entries_before(rows, row) + k < all_entries(rows.take(n)).len(),
        all_entries(rows.take(n))[entries_before(rows, row) + k] == rows[row][k],
    decreases n,
{
    let front = rows.take(n).drop_last();
    assert(front =~= rows.take(n - 1));
    lemma_entries_before(rows, n - 1);
    if row < n - 1 {
        lemma_entry_place(rows, n - 1, row, k);
    }
}

/// A matrix made of rows holds them one behind the other: entry `k` of a row stands
/// `k` places behind the start of the row, with its column and its value, and the row
/// ends with its last entry.
pub proof fn rows_stand_one_behind_the_other<T>(
    matrix: CsrView<T>,
    rows: Seq<Seq<(usize, T)>>,
    cols: nat,
    row: int,
    k: int,
)
    requires
        holds_rows(matrix, rows, cols),
        0 <= row < rows.len(),
        0 <= k < rows[row].len(),
    ensures
        matrix.rows == rows.len(),
        matrix.cols == cols,
        matrix.offsets[0] == 0,
        matrix.offsets[row + 1] - matrix.offsets[row] == rows[row].len(),
        matrix.offsets[row] + k < matrix.values.len(),
        (matrix.columns[matrix.offsets[row] + k], matrix.values[matrix.offsets[row] + k])
            == rows[row][k],
{
    lemma_entry_place(rows, rows.len() as int, row, k);
    assert(rows.take(rows.len() as int) =~= rows);
    let at = matrix.offsets[row] + k;
    assert(matrix.offsets[row] == entries_before(rows, row));
    assert(matrix.offsets[row + 1] == entries_before(rows, row + 1));
    assert(matrix.offsets[0] == entries_before(rows, 0));
    assert(paired(matrix.columns, matrix.values)[at] == all_entries(rows)[at]);
}

/// Rows are refused exactly where an entry lies beyond the last column.
pub proof fn rows_are_taken_iff_columns_fit<T>(rows: Seq<Seq<(usize, T)>>, cols: nat)
    ensures
        rows_checked(rows, cols) is Ok <==> forall|row: int, k: int|
            0 <= row < rows.len() && 0 <= k < rows[row].len() ==> (#[trigger] rows[row][k]).0
                < cols,
{
    let all = all_entries(rows);
    let columns = Seq::new(all.len(), |i: int| all[i].0);
    lemma_columns(columns, cols, 0);
    assert(rows.take(rows.len() as int) =~= rows);
    if rows_checked(rows, cols) is Ok {
        assert forall|row: int, k: int|
            0 <= row < rows.len() && 0 <= k < rows[row].len() implies (#[trigger] rows[row][k]).0
            < cols by {
            lemma_entry_place(rows, rows.len() as int, row, k);
            assert(columns[entries_before(rows, row) + k] < cols);
        }
    } else {
        let i = choose|i: int| 0 <= i < columns.len() && !(#[trigger] columns[i] < cols);
        lemma_entry_source(rows, i);
    }
}

proof fn lemma_entry_source<T>(rows: Seq<Seq<(usize, T)>>, i: int)
    requires
        0 <= i < all_entries(rows).len(),
    ensures
        exists|row: int, k: int|
            0 <= row < rows.len() && 0 <= k < rows[row].len() && #[trigger] rows[row][k]
                == all_entries(rows)[i],
    decreases rows.len(),
{
    let front = rows.drop_last();
    let before = all_entries(front);
    if i < before.len() {
        lemma_entry_source(front, i);
        let (row, k) = choose|row: int, k: int|
            0 <= row < front.len() && 0 <= k < front[row].len() && #[trigger] front[row][k]
                == before[i];
        assert(rows[row][k] == all_entries(rows)[i]);
    } else {
        let row = rows.len() - 1;
        assert(rows[row][i - before.len()] == all_entries(rows)[i]);
    }
}

impl<T> CsrView<T> {
    proof fn lemma_entry_from(self, column: int, at: int, end: int)
        ensures
            match self.entry_from(column, at, end) {
                Some(entry) => at <= entry < end && self.columns[entry] == column && forall|i: int|
                    at <= i < entry ==> #[trigger] self.columns[i] != column,
                None => forall|i: int| at <= i < end ==> #[trigger] self.columns[i] != column,
            },
        decreases end - at,
    {
        if at < end {
            self.lemma_entry_from(column, at + 1, end);
        }
    }

    proof fn lemma_diagonal_from(self, from: int)
        requires
            0 <= from <= self.rows,
        ensures
            self.diagonal_from(from) is Ok ==> self.diagonal_from(from)->Ok_0.len() == self.rows
                - from,
            self.diagonal_from(from) is Ok ==> forall|row: int|
                from <= row < self.rows ==> (#[trigger] self.diagonal_entry(row)) is Some
                    && self.diagonal_from(from)->Ok_0[row - from]
                    == self.values[self.diagonal_entry(row)->0],
            self.diagonal_from(from) is Err ==> exists|row: int|
                from <= row < self.rows && (#[trigger] self.diagonal_entry(row)) is None,
        decreases self.rows - from,
    {
        if from < self.rows {
            self.lemma_diagonal_from(from + 1);
            match self.diagonal_from(from) {
                Ok(found) => {
                    let rest = self.diagonal_from(from + 1)->Ok_0;
                    assert forall|row: int| from <= row < self.rows implies (
                    #[trigger] self.diagonal_entry(row)) is Some && found[row - from]
                        == self.values[self.diagonal_entry(row)->0] by {
                        if row > from {
                            assert(found[row - from] == rest[row - (from + 1)]);
                        }
                    }
                    assert(found.len() == self.rows - from);
                },
                Err(_) => {
                    if self.diagonal_entry(from) is Some {
                        let row = choose|row: int|
                            from + 1 <= row < self.rows && (#[trigger] self.diagonal_entry(
                                row,
                            )) is None;
                        assert(from <= row < self.rows && self.diagonal_entry(row) is None);
                    } else {
                        assert(from <= from < self.rows && self.diagonal_entry(from) is None);
                    }
                    assert(exists|row: int|
                        from <= row < self.rows && (#[trigger] self.diagonal_entry(row)) is None);
                },
            }
        }
    }

    /// Whether `value` is that of the first entry of a row in its own column.
    pub open spec fn is_diagonal(self, row: int, value: T) -> bool {
        exists|entry: int|
            self.offsets[row] <= entry < self.offsets[row + 1] && #[trigger] self.columns[entry]
                == row && self.values[entry] == value && forall|i: int|
                self.offsets[row] <= i < entry ==> #[trigger] self.columns[i] != row
    }

    /// Whether a row has no entry in its own column.
    pub open spec fn lacks_diagonal(self, row: int) -> bool {
        forall|entry: int|
            self.offsets[row] <= entry < self.offsets[row + 1] ==> #[trigger] self.columns[entry]
                != row
    }

    /// The diagonal has for each row the value of its first entry in the column of
    /// the row; it is refused exactly where the matrix is not square or a row has no
    /// such entry.
    pub proof fn diagonal_is_where_row_meets_column(self)
        ensures
            self.diagonal() is Ok ==> self.rows == self.cols && self.diagonal()->Ok_0.len()
                == self.rows,
            self.diagonal() is Ok ==> forall|row: int|
                0 <= row < self.rows ==> self.is_diagonal(
                    row,
                    #[trigger] self.diagonal()->Ok_0[row],
                ),
            self.diagonal() is Err ==> self.rows != self.cols || exists|row: int|
                0 <= row < self.rows && self.lacks_diagonal(row),
    {
        if self.rows == self.cols {
            self.lemma_diagonal_from(0);
            match self.diagonal() {
                Ok(found) => {
                    assert forall|row: int| 0 <= row < self.rows implies self.is_diagonal(
                        row,
                        #[trigger] self.diagonal()->Ok_0[row],
                    ) by {
                        self.lemma_entry_from(
                            row,
                            self.offsets[row] as int,
                            self.offsets[row + 1] as int,
                        );
                        let entry = self.diagonal_entry(row)->0;
                        assert(found[row - 0] == self.values[entry]);
                        assert(self.columns[entry] == row);
                    }
                },
                Err(_) => {
                    let row = choose|row: int|
                        0 <= row < self.rows && (#[trigger] self.diagonal_entry(row)) is None;
                    self.lemma_entry_from(
                        row,
                        self.offsets[row] as int,
                        self.offsets[row + 1] as int,
                    );
                    assert(self.lacks_diagonal(row));
                },
            }
        }
    }
}

/// A system is taken by the iterative solvers exactly where its matrix is square,
/// its vectors have an entry for each row, and its tolerance is finite and not below
/// zero.
pub proof fn system_is_taken_iff_it_fits(
    rows: nat,
    cols: nat,
    rhs: nat,
    initial: Option<usize>,
    tolerance: Real,
)
    ensures
        solve_checked(rows, cols, rhs, initial, tolerance) is Ok <==> {
            &&& rows == cols
            &&& rhs == rows
            &&& (initial matches Some(length) ==> length == rows)
            &&& tolerance.kind == RealKind::Zero || tolerance.kind == RealKind::UpToOne
                || tolerance.kind == RealKind::AboveOne
        },
{
}

/// A solver stops as converged as soon as its residual is small enough and never
/// otherwise, stops unconverged once its iterations are used up, and else makes one
/// more.
pub proof fn solver_stops_when_it_may(done: nat, max_iterations: nat, within: bool)
    requires
        done < usize::MAX,
        max_iterations <= usize::MAX,
    ensures
        match step_after(done, max_iterations, within) {
            SolveStep::Converged(iterations) => within && iterations == done,
            SolveStep::Exhausted(iterations) => !within && done >= max_iterations && iterations
                == max_iterations,
            SolveStep::Iterate(iterations) => !within && done < max_iterations && iterations == done
                + 1,
        },
{
}

} // verus!
