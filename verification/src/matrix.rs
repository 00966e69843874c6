use crate::error::Error;
use crate::error::ErrorKind;
use vstd::prelude::*;

verus! {

pub const MSG_WRONG_ELEMENT_COUNT: &'static str =
    "The number of elements is not the number of rows times the number of columns.";

/// The place of element (`i_row`, `i_col`) in a matrix with `n_cols` columns
/// that is stored row by row.
pub open spec fn place(n_cols: nat, i_row: int, i_col: int) -> int {
    i_row * n_cols + i_col
}

/// The place of an element of a matrix lies within the matrix, and the places
/// of a row follow each other.
pub proof fn lemma_place_in_range(n_rows: nat, n_cols: nat, i_row: int, i_col: int)
    requires
        0 <= i_row < n_rows,
        0 <= i_col < n_cols,
    ensures
        0 <= place(n_cols, i_row, i_col) < n_rows * n_cols,
        place(n_cols, i_row, 0) + i_col == place(n_cols, i_row, i_col),
        (i_row + 1) * n_cols <= n_rows * n_cols,
{
    assert(i_row * n_cols >= 0) by (nonlinear_arith)
        requires
            i_row >= 0,
            n_cols >= 0,
    ;
    assert((i_row + 1) * n_cols <= n_rows * n_cols) by (nonlinear_arith)
        requires
            i_row + 1 <= n_rows,
            n_cols >= 0,
    ;
    assert((i_row + 1) * n_cols == i_row * n_cols + n_cols) by (nonlinear_arith);
}

/// A place within a matrix belongs to one element only: its row is the place
/// divided by the number of columns, and its column the remainder.
pub proof fn lemma_place_unique(n_cols: nat, i_row: int, i_col: int)
    requires
        0 <= i_row,
        0 <= i_col < n_cols,
    ensures
        place(n_cols, i_row, i_col) / (n_cols as int) == i_row,
        place(n_cols, i_row, i_col) % (n_cols as int) == i_col,
{
    vstd::arithmetic::div_mod::lemma_fundamental_div_mod_converse(
        place(n_cols, i_row, i_col),
        n_cols as int,
        i_row,
        i_col,
    );
}

/// A dense matrix, stored row by row.
#[derive(Clone, Debug)]
pub struct Matrix<T> {
    n_rows: usize,
    n_cols: usize,
    elements: Vec<T>,
}

impl<T> View for Matrix<T> {
    type V = Seq<Seq<T>>;

    /// The rows of the matrix, each a list of its elements.
    closed spec fn view(&self) -> Seq<Seq<T>> {
        Seq::new(
            self.n_rows as nat,
            |i: int|
                Seq::new(self.n_cols as nat, |j: int| self.elements@[place(self.n_cols as nat, i, j)]),
        )
    }
}

impl<T> Matrix<T> {
    pub closed spec fn rows(&self) -> nat {
        self.n_rows as nat
    }

    pub closed spec fn cols(&self) -> nat {
        self.n_cols as nat
    }

    /// The elements, row after row.
    pub closed spec fn flat(&self) -> Seq<T> {
        self.elements@
    }

    /// There are as many elements as the rows and columns ask for.
    pub closed spec fn wf(&self) -> bool {
        self.elements.len() == self.n_rows * self.n_cols
    }

    /// The view has the rows and columns of the matrix, and holds the elements
    /// row after row.
    pub proof fn lemma_view(&self)
        requires
            self.wf(),
        ensures
            self@.len() == self.rows(),
            self.flat().len() == self.rows() * self.cols(),
            self.rows() * self.cols() <= usize::MAX,
            forall|i: int| 0 <= i < self.rows() ==> (#[trigger] self@[i]).len() == self.cols(),
            forall|i: int, j: int|
                0 <= i < self.rows() && 0 <= j < self.cols() ==> (#[trigger] self@[i][j])
                    == self.flat()[place(self.cols(), i, j)],
    {
    }

    /// The matrix whose element at each place is what `f` gives for the place.
    pub fn fill<F: Fn(usize, usize) -> T>(n_rows: usize, n_cols: usize, f: F) -> (matrix: Self)
        requires
            n_rows * n_cols <= usize::MAX,
            forall|i: usize, j: usize| i < n_rows && j < n_cols ==> call_requires(f, (i, j)),
        ensures
            matrix.wf(),
            matrix.rows() == n_rows,
            matrix.cols() == n_cols,
            forall|i: usize, j: usize|
                i < n_rows && j < n_cols ==> call_ensures(
                    f,
                    (i, j),
                    #[trigger] matrix@[i as int][j as int],
                ),
    {
        let mut elements: Vec<T> = Vec::new();
        let mut i_row: usize = 0;
        while i_row < n_rows
            invariant
                i_row <= n_rows,
                n_rows * n_cols <= usize::MAX,
                elements@.len() == i_row * n_cols,
                forall|i: usize, j: usize| i < n_rows && j < n_cols ==> call_requires(f, (i, j)),
                forall|i: usize, j: usize|
                    i < i_row && j < n_cols ==> call_ensures(
                        f,
                        (i, j),
                        #[trigger] elements@[place(n_cols as nat, i as int, j as int)],
                    ),
            decreases n_rows - i_row,
        {
            let mut i_col: usize = 0;
            while i_col < n_cols
                invariant
                    i_row < n_rows,
                    i_col <= n_cols,
                    n_rows * n_cols <= usize::MAX,
                    elements@.len() == i_row * n_cols + i_col,
                    forall|i: usize, j: usize|
                        i < n_rows && j < n_cols ==> call_requires(f, (i, j)),
                    forall|i: usize, j: usize|
                        (i < i_row && j < n_cols) || (i == i_row && j < i_col) ==> call_ensures(
                            f,
                            (i, j),
                            #[trigger] elements@[place(n_cols as nat, i as int, j as int)],
                        ),
                decreases n_cols - i_col,
            {
                let ghost before = elements@;
                let element = f(i_row, i_col);
                elements.push(element);
                proof {
                    assert forall|i: usize, j: usize|
                        (i < i_row && j < n_cols) || (i == i_row && j < i_col + 1)
                        implies call_ensures(
                        f,
                        (i, j),
                        #[trigger] elements@[place(n_cols as nat, i as int, j as int)],
                    ) by {
                        if i == i_row && j == i_col {
                        } else {
                            if i < i_row {
                                lemma_place_in_range(
                                    i_row as nat,
                                    n_cols as nat,
                                    i as int,
                                    j as int,
                                );
                            }
                            assert(elements@[place(n_cols as nat, i as int, j as int)]
                                == before[place(n_cols as nat, i as int, j as int)]);
                        }
                    }
                }
                i_col += 1;
            }
            proof {
                assert((i_row + 1) * n_cols == i_row * n_cols + n_cols) by (nonlinear_arith);
            }
            i_row += 1;
        }
        let matrix = Matrix { n_rows, n_cols, elements };
        proof {
            assert forall|i: usize, j: usize| i < n_rows && j < n_cols implies call_ensures(
                f,
                (i, j),
                #[trigger] matrix@[i as int][j as int],
            ) by {
                assert(matrix@[i as int][j as int] == matrix.elements@[place(
                    n_cols as nat,
                    i as int,
                    j as int,
                )]);
            }
        }
        matrix
    }

    /// The matrix with the given elements, row after row. Refused where the
    /// elements are not as many as the rows and columns ask for.
    pub fn from_vec(n_rows: usize, n_cols: usize, elements: Vec<T>) -> (outcome: Result<
        Self,
        Error,
    >)
        ensures
            elements@.len() == n_rows * n_cols ==> outcome is Ok && outcome->Ok_0.wf()
                && outcome->Ok_0.rows() == n_rows && outcome->Ok_0.cols() == n_cols
                && outcome->Ok_0.flat() == elements@,
            elements@.len() != n_rows * n_cols ==> outcome is Err && outcome->Err_0.kind
                == ErrorKind::Mocasa && outcome->Err_0.message@ == MSG_WRONG_ELEMENT_COUNT@,
    {
        assert(elements.len() == elements@.len());
        let fits = match n_rows.checked_mul(n_cols) {
            Some(n) => n == elements.len(),
            None => false,
        };
        if fits {
            Ok(Matrix { n_rows, n_cols, elements })
        } else {
            Err(Error::mocasa(MSG_WRONG_ELEMENT_COUNT))
        }
    }

    pub fn n_rows(&self) -> (n: usize)
        ensures
            n == self.rows(),
    {
        self.n_rows
    }

    pub fn n_cols(&self) -> (n: usize)
        ensures
            n == self.cols(),
    {
        self.n_cols
    }

    /// The elements, row after row.
    pub fn elements(&self) -> (elements: &Vec<T>)
        ensures
            elements@ == self.flat(),
    {
        &self.elements
    }

    /// The element in row `i_row` and column `i_col`.
    pub fn get(&self, i_row: usize, i_col: usize) -> (element: &T)
        requires
            self.wf(),
            i_row < self.rows(),
            i_col < self.cols(),
        ensures
            *element == self@[i_row as int][i_col as int],
    {
        proof {
            lemma_place_in_range(
                self.n_rows as nat,
                self.n_cols as nat,
                i_row as int,
                i_col as int,
            );
        }
        &self.elements[i_row * self.n_cols + i_col]
    }

    /// Puts `element` in row `i_row` and column `i_col`; every other element
    /// stays.
    pub fn set(&mut self, i_row: usize, i_col: usize, element: T)
        requires
            old(self).wf(),
            i_row < old(self).rows(),
            i_col < old(self).cols(),
        ensures
            final(self).wf(),
            final(self).rows() == old(self).rows(),
            final(self).cols() == old(self).cols(),
            final(self)@ == old(self)@.update(
                i_row as int,
                old(self)@[i_row as int].update(i_col as int, element),
            ),
    {
        proof {
            lemma_place_in_range(
                self.n_rows as nat,
                self.n_cols as nat,
                i_row as int,
                i_col as int,
            );
        }
        let ghost before = *self;
        let at = i_row * self.n_cols + i_col;
        self.elements.set(at, element);
        proof {
            let target = before@.update(
                i_row as int,
                before@[i_row as int].update(i_col as int, element),
            );
            assert(self@.len() == target.len());
            assert forall|i: int| 0 <= i < self@.len() implies self@[i] =~= target[i] by {
                assert(self@[i].len() == target[i].len());
                assert forall|j: int| 0 <= j < self.n_cols implies self@[i][j] == target[i][j] by {
                    lemma_place_in_range(self.n_rows as nat, self.n_cols as nat, i, j);
                    if i != i_row || j != i_col {
                        lemma_place_unique(self.n_cols as nat, i, j);
                        lemma_place_unique(self.n_cols as nat, i_row as int, i_col as int);
                    }
                }
            }
            assert(self@ =~= target);
        }
    }

    /// The elements of row `i_row`.
    pub fn row(&self, i_row: usize) -> (row: &[T])
        requires
            self.wf(),
            i_row < self.rows(),
        ensures
            row@ == self@[i_row as int],
    {
        proof {
            if self.n_cols > 0 {
                lemma_place_in_range(self.n_rows as nat, self.n_cols as nat, i_row as int, 0);
            } else {
                assert(i_row * self.n_cols == 0) by (nonlinear_arith)
                    requires
                        self.n_cols == 0,
                ;
                assert((i_row + 1) * self.n_cols == 0) by (nonlinear_arith)
                    requires
                        self.n_cols == 0,
                ;
            }
            assert((i_row + 1) * self.n_cols == i_row * self.n_cols + self.n_cols)
                by (nonlinear_arith);
        }
        let from = i_row * self.n_cols;
        let to = from + self.n_cols;
        let row = vstd::slice::slice_subrange(self.elements.as_slice(), from, to);
        proof {
            assert(row@ =~= self@[i_row as int]);
        }
        row
    }
}

impl<T: Copy> Matrix<T> {
    /// Puts at each place what `f` makes of the element there and the element
    /// of `other` at the same place.
    pub fn zip_apply<F: Fn(T, T) -> T>(&mut self, other: &Matrix<T>, f: &F)
        requires
            old(self).wf(),
            other.wf(),
            old(self).rows() == other.rows(),
            old(self).cols() == other.cols(),
            forall|a: T, b: T| call_requires(*f, (a, b)),
        ensures
            final(self).wf(),
            final(self).rows() == old(self).rows(),
            final(self).cols() == old(self).cols(),
            forall|i: int, j: int|
                0 <= i < other.rows() && 0 <= j < other.cols() ==> call_ensures(
                    *f,
                    (old(self)@[i][j], other@[i][j]),
                    #[trigger] final(self)@[i][j],
                ),
    {
        let ghost before = self.elements@;
        let n = self.elements.len();
        let mut k: usize = 0;
        while k < n
            invariant
                k <= n,
                n == before.len(),
                self.elements@.len() == n,
                other.elements@.len() == n,
                self.n_rows == old(self).n_rows,
                self.n_cols == old(self).n_cols,
                forall|a: T, b: T| call_requires(*f, (a, b)),
                forall|c: int|
                    0 <= c < k ==> call_ensures(
                        *f,
                        (before[c], other.elements@[c]),
                        #[trigger] self.elements@[c],
                    ),
                forall|c: int| k <= c < n ==> (#[trigger] self.elements@[c]) == before[c],
            decreases n - k,
        {
            let element = f(self.elements[k], other.elements[k]);
            self.elements.set(k, element);
            k += 1;
        }
        proof {
            assert forall|i: int, j: int|
                0 <= i < other.rows() && 0 <= j < other.cols() implies call_ensures(
                *f,
                (old(self)@[i][j], other@[i][j]),
                #[trigger] self@[i][j],
            ) by {
                lemma_place_in_range(other.n_rows as nat, other.n_cols as nat, i, j);
                let c = place(other.n_cols as nat, i, j);
                assert(self@[i][j] == self.elements@[c]);
                assert(old(self)@[i][j] == before[c]);
                assert(other@[i][j] == other.elements@[c]);
            }
        }
    }

    /// The matrix that holds `element` at every place.
    pub fn filled(n_rows: usize, n_cols: usize, element: T) -> (matrix: Self)
        requires
            n_rows * n_cols <= usize::MAX,
        ensures
            matrix.wf(),
            matrix.rows() == n_rows,
            matrix.cols() == n_cols,
            forall|i: int, j: int|
                0 <= i < n_rows && 0 <= j < n_cols ==> (#[trigger] matrix@[i][j]) == element,
    {
        let n = n_rows * n_cols;
        let mut elements: Vec<T> = Vec::new();
        while elements.len() < n
            invariant
                elements@.len() <= n,
                forall|k: int| 0 <= k < elements@.len() ==> (#[trigger] elements@[k]) == element,
            decreases n - elements@.len(),
        {
            elements.push(element);
        }
        let matrix = Matrix { n_rows, n_cols, elements };
        proof {
            assert forall|i: int, j: int| 0 <= i < n_rows && 0 <= j < n_cols implies (
            #[trigger] matrix@[i][j]) == element by {
                lemma_place_in_range(n_rows as nat, n_cols as nat, i, j);
            }
        }
        matrix
    }

    /// The matrix of the columns `is_cols` of this one, in that order.
    pub fn only_cols(&self, is_cols: &Vec<usize>) -> (matrix: Self)
        requires
            self.wf(),
            forall|k: int| 0 <= k < is_cols@.len() ==> (#[trigger] is_cols@[k]) < self.cols(),
            self.rows() * is_cols@.len() <= usize::MAX,
        ensures
            matrix.wf(),
            matrix.rows() == self.rows(),
            matrix.cols() == is_cols@.len(),
            forall|i: int, k: int|
                0 <= i < self.rows() && 0 <= k < is_cols@.len() ==> (#[trigger] matrix@[i][k])
                    == self@[i][is_cols@[k] as int],
    {
        let n_cols = is_cols.len();
        let mut elements: Vec<T> = Vec::new();
        let mut i_row: usize = 0;
        while i_row < self.n_rows
            invariant
                self.wf(),
                n_cols == is_cols@.len(),
                i_row <= self.n_rows,
                self.n_rows * n_cols <= usize::MAX,
                forall|k: int| 0 <= k < is_cols@.len() ==> (#[trigger] is_cols@[k]) < self.n_cols,
                elements@.len() == i_row * n_cols,
                forall|i: int, k: int|
                    0 <= i < i_row && 0 <= k < n_cols ==> (#[trigger] elements@[place(
                        n_cols as nat,
                        i,
                        k,
                    )]) == self@[i][is_cols@[k] as int],
            decreases self.n_rows - i_row,
        {
            let mut k: usize = 0;
            while k < n_cols
                invariant
                    self.wf(),
                    n_cols == is_cols@.len(),
                    i_row < self.n_rows,
                    k <= n_cols,
                    forall|k: int|
                        0 <= k < is_cols@.len() ==> (#[trigger] is_cols@[k]) < self.n_cols,
                    elements@.len() == i_row * n_cols + k,
                    forall|i: int, c: int|
                        (0 <= i < i_row && 0 <= c < n_cols) || (i == i_row && 0 <= c < k) ==> (
                        #[trigger] elements@[place(n_cols as nat, i, c)])
                            == self@[i][is_cols@[c] as int],
                decreases n_cols - k,
            {
                let ghost before = elements@;
                let i_col = is_cols[k];
                let element = *self.get(i_row, i_col);
                elements.push(element);
                proof {
                    assert forall|i: int, c: int|
                        (0 <= i < i_row && 0 <= c < n_cols) || (i == i_row && 0 <= c < k + 1)
                        implies (#[trigger] elements@[place(n_cols as nat, i, c)])
                        == self@[i][is_cols@[c] as int] by {
                        if i == i_row && c == k {
                        } else {
                            if i < i_row {
                                lemma_place_in_range(i_row as nat, n_cols as nat, i, c);
                            }
                            assert(elements@[place(n_cols as nat, i, c)] == before[place(
                                n_cols as nat,
                                i,
                                c,
                            )]);
                        }
                    }
                }
                k += 1;
            }
            proof {
                assert((i_row + 1) * n_cols == i_row * n_cols + n_cols) by (nonlinear_arith);
            }
            i_row += 1;
        }
        let matrix = Matrix { n_rows: self.n_rows, n_cols, elements };
        proof {
            assert forall|i: int, k: int|
                0 <= i < self.rows() && 0 <= k < is_cols@.len() implies (
            #[trigger] matrix@[i][k]) == self@[i][is_cols@[k] as int] by {
                assert(matrix@[i][k] == matrix.elements@[place(n_cols as nat, i, k)]);
            }
        }
        matrix
    }
}

} // verus!
