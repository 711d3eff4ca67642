use crate::error::Error;
use crate::text::{shows, texts};
use std::fmt::Display;
use vstd::prelude::*;
use vstd::slice::slice_subrange;
use vstd::string::{to_string_from_display_ensures, StringExecFns};

verus! {

/// What a matrix is: its dimensions and its cells in row-major order.
#[verifier::ext_equal]
pub struct MatrixView<T> {
    pub row: nat,
    pub col: nat,
    pub data: Seq<T>,
}

impl<T> MatrixView<T> {
    /// The buffer holds exactly `row * col` cells.
    pub open spec fn wf(self) -> bool {
        self.data.len() == self.row * self.col
    }

    /// The cell in row `i` and column `j`.
    pub open spec fn at(self, i: int, j: int) -> T {
        self.data[i * self.col + j]
    }

    /// Row `i`: a contiguous stretch of the buffer.
    pub open spec fn row_view(self, i: int) -> Seq<T> {
        self.data.subrange(i * self.col, (i + 1) * self.col)
    }

    /// Column `j`: every `col`-th cell of the buffer, starting at `j`.
    pub open spec fn col_view(self, j: int) -> Seq<T> {
        Seq::new(self.row, |i: int| self.data[i * self.col + j])
    }
}

/// Row `i` of a `row` by `col` matrix is a stretch of `col` cells inside its buffer.
pub proof fn lemma_row_in_buffer(row: int, col: int, i: int)
    requires
        0 <= i < row,
        0 <= col,
    ensures
        0 <= i * col,
        (i + 1) * col == i * col + col,
        (i + 1) * col <= row * col,
{
    assert(0 <= i * col) by (nonlinear_arith)
        requires
            0 <= i,
            0 <= col,
    ;
    assert((i + 1) * col == i * col + col) by (nonlinear_arith);
    assert((i + 1) * col <= row * col) by (nonlinear_arith)
        requires
            i + 1 <= row,
            0 <= col,
    ;
}

/// Cell `(i, j)` of a `row` by `col` matrix lies inside its buffer, within row `i`.
pub proof fn lemma_cell_in_buffer(row: int, col: int, i: int, j: int)
    requires
        0 <= i < row,
        0 <= j < col,
    ensures
        0 <= i * col <= i * col + j < (i + 1) * col <= row * col,
{
    lemma_row_in_buffer(row, col, i);
}

/// The cell that buffer index `idx` of a `row` by `col` matrix holds: row
/// `idx / col`, column `idx % col`.
pub proof fn lemma_cell_of_index(row: int, col: int, idx: int)
    requires
        0 <= row,
        0 <= col,
        0 <= idx < row * col,
    ensures
        col > 0,
        0 <= idx / col < row,
        0 <= idx % col < col,
        idx == (idx / col) * col + idx % col,
{
    assert(col > 0) by (nonlinear_arith)
        requires
            0 <= col,
            0 <= idx < row * col,
    ;
    vstd::arithmetic::div_mod::lemma_fundamental_div_mod(idx, col);
    vstd::arithmetic::div_mod::lemma_mod_pos_bound(idx, col);
    vstd::arithmetic::div_mod::lemma_div_pos_is_pos(idx, col);
    assert(col * row == row * col) by (nonlinear_arith);
    vstd::arithmetic::div_mod::lemma_multiply_divide_lt(idx, col, row);
    assert(col * (idx / col) == (idx / col) * col) by (nonlinear_arith);
}

/// The buffer index of cell `(i, j)` of a `row` by `col` matrix, `i * col + j`,
/// leads back to row `i` and column `j`.
pub proof fn lemma_index_of_cell(row: int, col: int, i: int, j: int)
    requires
        0 <= i < row,
        0 <= j < col,
    ensures
        0 <= i * col + j < row * col,
        (i * col + j) / col == i,
        (i * col + j) % col == j,
{
    lemma_cell_in_buffer(row, col, i, j);
    vstd::arithmetic::div_mod::lemma_fundamental_div_mod_converse(i * col + j, col, i, j);
}

/// The first `n` cells of row `i`, each followed by a space unless it stands
/// in the last column.
pub open spec fn row_text(cells: Seq<Seq<char>>, col: nat, i: nat, n: nat) -> Seq<char>
    decreases n,
{
    if n == 0 {
        Seq::empty()
    } else {
        let cell = cells[i * col + n - 1];
        let before = row_text(cells, col, i, (n - 1) as nat);
        if n == col {
            before + cell
        } else {
            before + cell + " "@
        }
    }
}

/// The first `n` rows, each followed by a comma and a space unless it is the
/// last row.
pub open spec fn rows_text(cells: Seq<Seq<char>>, row: nat, col: nat, n: nat) -> Seq<char>
    decreases n,
{
    if n == 0 {
        Seq::empty()
    } else {
        let line = row_text(cells, col, (n - 1) as nat, col);
        let before = rows_text(cells, row, col, (n - 1) as nat);
        if n == row {
            before + line
        } else {
            before + line + ", "@
        }
    }
}

/// The text of a `row` by `col` matrix whose cells read `cells`, in row-major
/// order: the rows between braces.
pub open spec fn matrix_text(cells: Seq<Seq<char>>, row: nat, col: nat) -> Seq<char> {
    "{"@ + rows_text(cells, row, col, row) + "}"@
}

/// The text of a matrix with its shape in front, given the texts of the
/// number of rows, of the number of columns and of the matrix itself.
pub open spec fn debug_text(row: Seq<char>, col: Seq<char>, body: Seq<char>) -> Seq<char> {
    "Matrix(row="@ + row + ", col="@ + col + ", "@ + body + ")"@
}

/// `text` is a text of the matrix `m`: its layout over texts of its cells.
pub open spec fn shows_matrix<T: Display>(m: MatrixView<T>, text: Seq<char>) -> bool {
    exists|cells: Seq<Seq<char>>|
        {
            &&& cells.len() == m.data.len()
            &&& forall|k: int| 0 <= k < cells.len() ==> shows(m.data[k], #[trigger] cells[k])
            &&& text == matrix_text(cells, m.row, m.col)
        }
}

/// Lays out the texts of the cells of a `row` by `col` matrix: the cells of a
/// row separated by a space, the rows by a comma and a space, all of it
/// between braces.
pub fn render_cells(cells: &Vec<String>, row: usize, col: usize) -> (text: String)
    requires
        cells@.len() == row * col,
    ensures
        text@ == matrix_text(texts(cells@), row as nat, col as nat),
{
    let ghost read = texts(cells@);
    assert(cells@.len() == cells.len());
    let mut text = String::new();
    text.append("{");
    let ghost mut inner: Seq<char> = Seq::empty();
    let mut i: usize = 0;
    while i < row
        invariant
            i <= row,
            cells@.len() == row * col,
            row * col <= usize::MAX,
            read == texts(cells@),
            inner == rows_text(read, row as nat, col as nat, i as nat),
            text@ == "{"@ + inner,
        decreases row - i,
    {
        let ghost mut line: Seq<char> = Seq::empty();
        let ghost before = inner;
        let mut j: usize = 0;
        while j < col
            invariant
                i < row,
                j <= col,
                cells@.len() == row * col,
                row * col <= usize::MAX,
                read == texts(cells@),
                line == row_text(read, col as nat, i as nat, j as nat),
                text@ == "{"@ + before + line,
            decreases col - j,
        {
            proof {
                lemma_cell_in_buffer(row as int, col as int, i as int, j as int);
            }
            text.append(cells[i * col + j].as_str());
            proof {
                line = line + read[i * col + j];
            }
            if j != col - 1 {
                text.append(" ");
                proof {
                    line = line + " "@;
                }
            }
            j += 1;
            assert(text@ =~= "{"@ + before + line);
        }
        proof {
            inner = inner + line;
        }
        if i != row - 1 {
            text.append(", ");
            proof {
                inner = inner + ", "@;
            }
        }
        i += 1;
        assert(text@ =~= "{"@ + inner);
    }
    text.append("}");
    text
}

/// A dense matrix over a flat row-major buffer. Its shape never changes.
pub struct Matrix<T> {
    data: Vec<T>,
    row: usize,
    col: usize,
}

impl<T> View for Matrix<T> {
    type V = MatrixView<T>;

    closed spec fn view(&self) -> MatrixView<T> {
        MatrixView { row: self.row as nat, col: self.col as nat, data: self.data@ }
    }
}

impl<T> Matrix<T> {
    #[verifier::type_invariant]
    spec fn inv(self) -> bool {
        self.data@.len() == self.row * self.col
    }

    /// A `row` by `col` matrix over `data`, refused unless `data` holds exactly
    /// `row * col` cells.
    pub fn new(data: Vec<T>, row: usize, col: usize) -> (r: Result<Self, Error>)
        ensures
            data@.len() == row * col ==> r is Ok && r->Ok_0@ == (MatrixView {
                row: row as nat,
                col: col as nat,
                data: data@,
            }),
            data@.len() != row * col ==> r is Err && r->Err_0 == Error::ShapeMismatch,
    {
        assert(data@.len() == data.len());
        match row.checked_mul(col) {
            Some(cells) => {
                if data.len() == cells {
                    Ok(Self { data, row, col })
                } else {
                    Err(Error::ShapeMismatch)
                }
            },
            None => Err(Error::ShapeMismatch),
        }
    }

    /// The number of rows.
    pub fn row(&self) -> (n: usize)
        ensures
            n == self@.row,
            self@.wf(),
    {
        proof {
            use_type_invariant(self);
        }
        self.row
    }

    /// The number of columns.
    pub fn col(&self) -> (n: usize)
        ensures
            n == self@.col,
            self@.wf(),
    {
        proof {
            use_type_invariant(self);
        }
        self.col
    }

    /// The cells in row-major order.
    pub fn data(&self) -> (cells: &Vec<T>)
        ensures
            cells@ == self@.data,
            self@.wf(),
    {
        proof {
            use_type_invariant(self);
        }
        &self.data
    }

    /// The text of the matrix, as `Display` would write it were the cells
    /// written with their own `Display`: `{1 2 3, 4 5 6}` for two rows of three.
    pub fn to_string(&self) -> (text: String) where T: Display
        ensures
            shows_matrix(self@, text@),
    {
        proof {
            use_type_invariant(self);
        }
        let n: usize = self.data.len();
        let mut cells: Vec<String> = Vec::new();
        let mut k: usize = 0;
        while k < n
            invariant
                k <= n,
                n == self.data@.len(),
                cells@.len() == k,
                forall|p: int| 0 <= p < k ==> shows(self.data@[p], #[trigger] texts(cells@)[p]),
            decreases n - k,
        {
            let cell = self.data[k].to_string();
            let ghost before = cells@;
            cells.push(cell);
            proof {
                assert(to_string_from_display_ensures::<T>(&self.data@[k as int], cell));
                assert(texts(cells@)[k as int] == cell@);
                assert forall|p: int| 0 <= p < k + 1 implies shows(
                    self.data@[p],
                    #[trigger] texts(cells@)[p],
                ) by {
                    if p < k {
                        assert(texts(cells@)[p] == texts(before)[p]);
                    }
                }
            }
            k += 1;
        }
        let text = render_cells(&cells, self.row, self.col);
        proof {
            let read = texts(cells@);
            assert(read.len() == self@.data.len());
            assert(text@ == matrix_text(read, self@.row, self@.col));
        }
        text
    }

    /// The text of the matrix with its shape in front, as `Debug` would write
    /// it: `Matrix(row=2, col=3, {1 2 3, 4 5 6})`.
    pub fn to_debug_string(&self) -> (text: String) where T: Display
        ensures
            exists|row: Seq<char>, col: Seq<char>, body: Seq<char>|
                {
                    &&& shows(self@.row as usize, row)
                    &&& shows(self@.col as usize, col)
                    &&& shows_matrix(self@, body)
                    &&& #[trigger] debug_text(row, col, body) == text@
                },
    {
        let row = self.row.to_string();
        let col = self.col.to_string();
        let body = self.to_string();
        let mut text = String::new();
        text.append("Matrix(row=");
        text.append(row.as_str());
        text.append(", col=");
        text.append(col.as_str());
        text.append(", ");
        text.append(body.as_str());
        text.append(")");
        proof {
            assert(to_string_from_display_ensures::<usize>(&self.row, row));
            assert(to_string_from_display_ensures::<usize>(&self.col, col));
            assert(text@ =~= debug_text(row@, col@, body@));
        }
        text
    }

    /// Row `i` as a slice of the buffer, without copying.
    pub fn row_view(&self, i: usize) -> (cells: &[T])
        requires
            i < self@.row,
        ensures
            cells@ == self@.row_view(i as int),
            cells@.len() == self@.col,
    {
        proof {
            use_type_invariant(self);
            assert(self.data@.len() == self.data.len());
            lemma_row_in_buffer(self.row as int, self.col as int, i as int);
        }
        let start: usize = i * self.col;
        slice_subrange(self.data.as_slice(), start, start + self.col)
    }

    /// Column `j`, copied out cell by cell into a sequence of its own.
    pub fn col_view(&self, j: usize) -> (cells: Vec<T>) where T: Copy
        requires
            j < self@.col,
        ensures
            cells@ == self@.col_view(j as int),
            cells@.len() == self@.row,
    {
        proof {
            use_type_invariant(self);
            assert(self.data@.len() == self.data.len());
        }
        let mut cells: Vec<T> = Vec::new();
        let mut i: usize = 0;
        while i < self.row
            invariant
                i <= self.row,
                j < self.col,
                self.data@.len() == self.row * self.col,
                self.row * self.col <= usize::MAX,
                cells@.len() == i,
                forall|k: int| 0 <= k < i ==> cells@[k] == self.data@[k * self.col + j],
            decreases self.row - i,
        {
            proof {
                lemma_cell_in_buffer(self.row as int, self.col as int, i as int, j as int);
            }
            cells.push(self.data[i * self.col + j]);
            i += 1;
        }
        assert(cells@ =~= self@.col_view(j as int));
        cells
    }
}

} // verus!
