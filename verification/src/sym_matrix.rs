use vstd::prelude::*;

verus! {

/// The number of elements on and under the diagonal of a square matrix.
pub open spec fn triangle(size: nat) -> nat {
    size * (size + 1) / 2
}

/// The place of element (`i1`, `i2`) of a symmetric matrix that stores, row
/// after row, what lies on and under its diagonal.
pub open spec fn sym_place(i1: nat, i2: nat) -> nat {
    let i_min = if i1 <= i2 {
        i1
    } else {
        i2
    };
    let i_max = if i1 <= i2 {
        i2
    } else {
        i1
    };
    triangle(i_max) + i_min
}

/// A row starts where the rows before it end.
pub proof fn lemma_triangle_step(size: nat)
    ensures
        triangle(size + 1) == triangle(size) + size + 1,
{
    assert((size + 1) * (size + 2) == size * (size + 1) + 2 * (size + 1)) by (nonlinear_arith);
}

/// The rows of a larger triangle hold at least what those of a smaller hold.
pub proof fn lemma_triangle_grows(smaller: nat, larger: nat)
    requires
        smaller <= larger,
    ensures
        triangle(smaller) <= triangle(larger),
    decreases larger - smaller,
{
    if smaller < larger {
        lemma_triangle_step((larger - 1) as nat);
        lemma_triangle_grows(smaller, (larger - 1) as nat);
    }
}

/// The place of an element does not depend on the order of its two indices,
/// lies within the matrix, and belongs to that pair of indices alone.
pub proof fn lemma_sym_place(size: nat, i1: nat, i2: nat, j1: nat, j2: nat)
    requires
        i1 < size,
        i2 < size,
        j1 < size,
        j2 < size,
    ensures
        sym_place(i1, i2) == sym_place(i2, i1),
        sym_place(i1, i2) < triangle(size),
        sym_place(i1, i2) == sym_place(j1, j2) ==> (i1 == j1 && i2 == j2) || (i1 == j2 && i2
            == j1),
{
    let i_max = if i1 <= i2 {
        i2
    } else {
        i1
    };
    let j_max = if j1 <= j2 {
        j2
    } else {
        j1
    };
    lemma_triangle_step(i_max);
    lemma_triangle_step(j_max);
    lemma_triangle_grows(i_max + 1, size);
    if i_max < j_max {
        lemma_triangle_grows(i_max + 1, j_max);
    }
    if j_max < i_max {
        lemma_triangle_grows(j_max + 1, i_max);
    }
}

/// A symmetric square matrix: the element at (`i1`, `i2`) is the element at
/// (`i2`, `i1`).
#[derive(Clone, Debug)]
pub struct SymMatrix<T> {
    size: usize,
    elements: Vec<T>,
}

impl<T> SymMatrix<T> {
    pub closed spec fn size_spec(&self) -> nat {
        self.size as nat
    }

    pub closed spec fn wf(&self) -> bool {
        self.elements.len() == triangle(self.size as nat)
    }

    /// The element at (`i1`, `i2`).
    pub closed spec fn at(&self, i1: int, i2: int) -> T {
        self.elements@[sym_place(i1 as nat, i2 as nat) as int]
    }

    /// The place of element (`i1`, `i2`) among those stored.
    pub fn i_element(i1: usize, i2: usize) -> (place: usize)
        requires
            triangle(
                if i1 <= i2 {
                    i2 as nat
                } else {
                    i1 as nat
                } + 1,
            ) <= usize::MAX,
        ensures
            place == sym_place(i1 as nat, i2 as nat),
    {
        let (i_min, i_max) = if i1 <= i2 {
            (i1, i2)
        } else {
            (i2, i1)
        };
        proof {
            lemma_triangle_step(i_max as nat);
            assert(i_max * (i_max + 1) <= 2 * (triangle(i_max as nat) + i_max + 1))
                by (nonlinear_arith)
                requires
                    triangle(i_max as nat) == i_max * (i_max + 1) / 2,
            ;
        }
        let half = if i_max % 2 == 0 {
            proof {
                let k = (i_max / 2) as int;
                assert(i_max == 2 * k);
                assert(i_max * (i_max + 1) == 2 * (k * (i_max + 1))) by (nonlinear_arith)
                    requires
                        i_max == 2 * k,
                ;
            }
            (i_max / 2) * (i_max + 1)
        } else {
            proof {
                let k = ((i_max + 1) / 2) as int;
                assert(i_max + 1 == 2 * k);
                assert(i_max * (i_max + 1) == 2 * (i_max * k)) by (nonlinear_arith)
                    requires
                        i_max + 1 == 2 * k,
                ;
            }
            i_max * ((i_max + 1) / 2)
        };
        half + i_min
    }

    pub fn size(&self) -> (size: usize)
        ensures
            size == self.size_spec(),
    {
        self.size
    }

    /// The element at (`i1`, `i2`).
    pub fn get(&self, i1: usize, i2: usize) -> (element: &T)
        requires
            self.wf(),
            i1 < self.size_spec(),
            i2 < self.size_spec(),
        ensures
            *element == self.at(i1 as int, i2 as int),
            *element == self.at(i2 as int, i1 as int),
    {
        proof {
            lemma_sym_place(self.size as nat, i1 as nat, i2 as nat, i1 as nat, i2 as nat);
            let i_max = if i1 <= i2 {
                i2 as nat
            } else {
                i1 as nat
            };
            lemma_triangle_grows(i_max + 1, self.size as nat);
        }
        &self.elements[Self::i_element(i1, i2)]
    }

    /// Puts `element` at (`i1`, `i2`), and so at (`i2`, `i1`); every other
    /// element stays.
    pub fn set(&mut self, i1: usize, i2: usize, element: T)
        requires
            old(self).wf(),
            i1 < old(self).size_spec(),
            i2 < old(self).size_spec(),
        ensures
            final(self).wf(),
            final(self).size_spec() == old(self).size_spec(),
            final(self).at(i1 as int, i2 as int) == element,
            final(self).at(i2 as int, i1 as int) == element,
            forall|j1: int, j2: int|
                0 <= j1 < old(self).size_spec() && 0 <= j2 < old(self).size_spec() && !((j1 == i1
                    && j2 == i2) || (j1 == i2 && j2 == i1)) ==> final(self).at(j1, j2) == old(
                    self,
                ).at(j1, j2),
    {
        proof {
            lemma_sym_place(self.size as nat, i1 as nat, i2 as nat, i1 as nat, i2 as nat);
            let i_max = if i1 <= i2 {
                i2 as nat
            } else {
                i1 as nat
            };
            lemma_triangle_grows(i_max + 1, self.size as nat);
            assert forall|j1: int, j2: int|
                0 <= j1 < self.size && 0 <= j2 < self.size && !((j1 == i1 && j2 == i2) || (j1 == i2
                    && j2 == i1)) implies (#[trigger] sym_place(j1 as nat, j2 as nat)) != sym_place(
                i1 as nat,
                i2 as nat,
            ) by {
                lemma_sym_place(self.size as nat, i1 as nat, i2 as nat, j1 as nat, j2 as nat);
            }
        }
        let ghost before = *self;
        let place = Self::i_element(i1, i2);
        self.elements.set(place, element);
        proof {
            assert forall|j1: int, j2: int|
                0 <= j1 < before.size && 0 <= j2 < before.size && !((j1 == i1 && j2 == i2) || (j1
                    == i2 && j2 == i1)) implies self.at(j1, j2) == before.at(j1, j2) by {
                lemma_sym_place(before.size as nat, j1 as nat, j2 as nat, j1 as nat, j2 as nat);
                assert(sym_place(j1 as nat, j2 as nat) != place);
            }
        }
    }
}

impl<T: Copy> SymMatrix<T> {
    /// The matrix of the given size that holds `element` everywhere.
    pub fn new(element: T, size: usize) -> (matrix: Self)
        requires
            triangle(size as nat) <= usize::MAX,
        ensures
            matrix.wf(),
            matrix.size_spec() == size,
            forall|i1: int, i2: int|
                0 <= i1 < size && 0 <= i2 < size ==> matrix.at(i1, i2) == element,
    {
        let mut elements: Vec<T> = Vec::new();
        let mut row: usize = 0;
        while row < size
            invariant
                row <= size,
                triangle(size as nat) <= usize::MAX,
                elements@.len() == triangle(row as nat),
                forall|k: int| 0 <= k < elements@.len() ==> (#[trigger] elements@[k]) == element,
            decreases size - row,
        {
            proof {
                lemma_triangle_step(row as nat);
                lemma_triangle_grows((row + 1) as nat, size as nat);
            }
            let mut i: usize = 0;
            while i <= row
                invariant
                    row < size,
                    i <= row + 1,
                    elements@.len() == triangle(row as nat) + i,
                    forall|k: int|
                        0 <= k < elements@.len() ==> (#[trigger] elements@[k]) == element,
                decreases row + 1 - i,
            {
                elements.push(element);
                i += 1;
            }
            row += 1;
        }
        let matrix = SymMatrix { size, elements };
        proof {
            assert forall|i1: int, i2: int| 0 <= i1 < size && 0 <= i2 < size implies matrix.at(
                i1,
                i2,
            ) == element by {
                lemma_sym_place(size as nat, i1 as nat, i2 as nat, i1 as nat, i2 as nat);
            }
        }
        matrix
    }
}

} // verus!
