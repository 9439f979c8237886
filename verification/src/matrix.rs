//! Square matrices of two, three and four rows: where their entries are
//! kept, and which of them make up a transpose, a submatrix and a cofactor.

use vstd::prelude::*;
use crate::scalar::{Scalar, ONE_BITS};

verus! {

/// A matrix of four rows and four columns, row after row.
#[derive(Clone, Copy, Debug)]
pub struct M4 {
    pub data: [Scalar; 16],
}

/// A matrix of three rows and three columns, row after row.
#[derive(Clone, Copy, Debug)]
pub struct M3 {
    pub data: [Scalar; 9],
}

/// A matrix of two rows and two columns, row after row.
#[derive(Clone, Copy, Debug)]
pub struct M2 {
    pub data: [Scalar; 4],
}

/// The entries of the identity matrix of four rows: one on the diagonal,
/// zero everywhere else.
pub open spec fn identity_entries() -> Seq<Scalar> {
    Seq::new(
        16,
        |i: int|
            if i % 5 == 0 {
                Scalar { bits: ONE_BITS }
            } else {
                Scalar { bits: 0 }
            },
    )
}

/// The entry in row `row` and column `col` of a matrix of `width` columns
/// whose entries are `data`, row after row.
pub open spec fn at(data: Seq<Scalar>, width: int, row: int, col: int) -> Scalar {
    data[row * width + col]
}

/// The row or column of a matrix that holds row or column `i` of the
/// submatrix without row or column `gone`.
pub open spec fn kept(i: int, gone: int) -> int {
    if i < gone {
        i
    } else {
        i + 1
    }
}

impl M4 {
    /// The entry in row `row` and column `col`.
    pub open spec fn entry(self, row: int, col: int) -> Scalar {
        at(self.data@, 4, row, col)
    }

    /// The matrix of the given entries.
    pub fn new(data: [Scalar; 16]) -> (r: M4)
        ensures
            r.data == data,
    {
        M4 { data }
    }

    /// The identity matrix.
    pub fn identity() -> (r: M4)
        ensures
            r.data@ == identity_entries(),
    {
        let zero = Scalar::zero();
        let one = Scalar::one();
        let r = M4 {
            data: [
                one,
                zero,
                zero,
                zero,
                zero,
                one,
                zero,
                zero,
                zero,
                zero,
                one,
                zero,
                zero,
                zero,
                zero,
                one,
            ],
        };
        assert(r.data@ =~= identity_entries());
        r
    }

    /// The entry in row `row` and column `column`. Counted row after row,
    /// the place has to be one of the sixteen.
    pub fn get(&self, row: usize, column: usize) -> (r: Scalar)
        requires
            row * 4 + column < 16,
        ensures
            r == self.data@[row * 4 + column],
    {
        self.data[row * 4 + column]
    }

    /// Sets the entry in row `row` and column `col`. A place that, counted
    /// row after row, is not one of the sixteen is passed over.
    pub fn set(&mut self, value: Scalar, row: usize, col: usize)
        ensures
            final(self).data@ == if row * 4 + col <= 15 {
                old(self).data@.update(row * 4 + col, value)
            } else {
                old(self).data@
            },
    {
        if row > 3 || col > 15 {
            return ;
        }
        let index: usize = row * 4 + col;
        if index > 15 {
            return ;
        }
        self.data[index] = value;
    }

    /// The transpose: rows and columns change places.
    pub fn transpose(&self) -> (r: M4)
        ensures
            forall|row: int, col: int|
                0 <= row < 4 && 0 <= col < 4
                    ==> #[trigger] r.entry(row, col) == self.entry(col, row),
    {
        let mut data = self.data;
        let mut r: usize = 0;
        while r < 4
            invariant
                0 <= r <= 4,
                forall|i: int, j: int|
                    0 <= i < r && 0 <= j < 4 ==> #[trigger] at(data@, 4, i, j) == at(
                        self.data@,
                        4,
                        j,
                        i,
                    ),
            decreases 4 - r,
        {
            let mut c: usize = 0;
            while c < 4
                invariant
                    0 <= c <= 4,
                    r < 4,
                    forall|i: int, j: int|
                        0 <= i < 4 && 0 <= j < 4 && (i < r || (i == r && j < c)) ==> #[trigger] at(
                            data@,
                            4,
                            i,
                            j,
                        ) == at(self.data@, 4, j, i),
                decreases 4 - c,
            {
                let ghost before = data@;
                data[r * 4 + c] = self.data[c * 4 + r];
                assert forall|i: int, j: int|
                    0 <= i < 4 && 0 <= j < 4 && (i < r || (i == r && j < c + 1))
                        implies #[trigger] at(
                    data@,
                    4,
                    i,
                    j,
                ) == at(self.data@, 4, j, i) by {
                    if i == r && j == c {
                    } else {
                        assert(i * 4 + j != r * 4 + c);
                        assert(at(before, 4, i, j) == at(self.data@, 4, j, i));
                    }
                }
                c = c + 1;
            }
            r = r + 1;
        }
        M4 { data }
    }

    /// The matrix without row `row` and column `col`.
    pub fn submatrix(&self, row: usize, col: usize) -> (r: M3)
        requires
            row < 4,
            col < 4,
        ensures
            forall|i: int, j: int|
                0 <= i < 3 && 0 <= j < 3 ==> #[trigger] r.entry(i, j) == self.entry(
                    kept(i, row as int),
                    kept(j, col as int),
                ),
    {
        let zero = Scalar::zero();
        let mut data = [zero, zero, zero, zero, zero, zero, zero, zero, zero];
        let mut i: usize = 0;
        while i < 3
            invariant
                0 <= i <= 3,
                row < 4,
                col < 4,
                forall|a: int, b: int|
                    0 <= a < i && 0 <= b < 3 ==> #[trigger] at(data@, 3, a, b) == at(
                        self.data@,
                        4,
                        kept(a, row as int),
                        kept(b, col as int),
                    ),
            decreases 3 - i,
        {
            let from_row: usize = if i < row {
                i
            } else {
                i + 1
            };
            let mut j: usize = 0;
            while j < 3
                invariant
                    0 <= j <= 3,
                    i < 3,
                    row < 4,
                    col < 4,
                    from_row == kept(i as int, row as int),
                    forall|a: int, b: int|
                        0 <= a < 3 && 0 <= b < 3 && (a < i || (a == i && b < j)) ==> #[trigger] at(
                            data@,
                            3,
                            a,
                            b,
                        ) == at(self.data@, 4, kept(a, row as int), kept(b, col as int)),
                decreases 3 - j,
            {
                let from_col: usize = if j < col {
                    j
                } else {
                    j + 1
                };
                let ghost before = data@;
                data[i * 3 + j] = self.data[from_row * 4 + from_col];
                assert forall|a: int, b: int|
                    0 <= a < 3 && 0 <= b < 3 && (a < i || (a == i && b < j + 1))
                        implies #[trigger] at(
                    data@,
                    3,
                    a,
                    b,
                ) == at(self.data@, 4, kept(a, row as int), kept(b, col as int)) by {
                    if a == i && b == j {
                    } else {
                        assert(a * 3 + b != i * 3 + j);
                        assert(at(before, 3, a, b) == at(
                            self.data@,
                            4,
                            kept(a, row as int),
                            kept(b, col as int),
                        ));
                    }
                }
                j = j + 1;
            }
            i = i + 1;
        }
        M3 { data }
    }
}

impl M3 {
    /// The entry in row `row` and column `col`.
    pub open spec fn entry(self, row: int, col: int) -> Scalar {
        at(self.data@, 3, row, col)
    }

    /// The matrix of the given entries.
    pub fn new(data: [Scalar; 9]) -> (r: M3)
        ensures
            r.data == data,
    {
        M3 { data }
    }

    /// The entry in row `row` and column `column`. Counted row after row,
    /// the place has to be one of the nine.
    pub fn get(&self, row: usize, column: usize) -> (r: Scalar)
        requires
            row * 3 + column < 9,
        ensures
            r == self.data@[row * 3 + column],
    {
        self.data[row * 3 + column]
    }

    /// The matrix without row `row` and column `col`.
    pub fn submatrix(&self, row: usize, col: usize) -> (r: M2)
        requires
            row < 3,
            col < 3,
        ensures
            forall|i: int, j: int|
                0 <= i < 2 && 0 <= j < 2 ==> #[trigger] r.entry(i, j) == self.entry(
                    kept(i, row as int),
                    kept(j, col as int),
                ),
    {
        let zero = Scalar::zero();
        let mut data = [zero, zero, zero, zero];
        let mut i: usize = 0;
        while i < 2
            invariant
                0 <= i <= 2,
                row < 3,
                col < 3,
                forall|a: int, b: int|
                    0 <= a < i && 0 <= b < 2 ==> #[trigger] at(data@, 2, a, b) == at(
                        self.data@,
                        3,
                        kept(a, row as int),
                        kept(b, col as int),
                    ),
            decreases 2 - i,
        {
            let from_row: usize = if i < row {
                i
            } else {
                i + 1
            };
            let mut j: usize = 0;
            while j < 2
                invariant
                    0 <= j <= 2,
                    i < 2,
                    row < 3,
                    col < 3,
                    from_row == kept(i as int, row as int),
                    forall|a: int, b: int|
                        0 <= a < 2 && 0 <= b < 2 && (a < i || (a == i && b < j)) ==> #[trigger] at(
                            data@,
                            2,
                            a,
                            b,
                        ) == at(self.data@, 3, kept(a, row as int), kept(b, col as int)),
                decreases 2 - j,
            {
                let from_col: usize = if j < col {
                    j
                } else {
                    j + 1
                };
                let ghost before = data@;
                data[i * 2 + j] = self.data[from_row * 3 + from_col];
                assert forall|a: int, b: int|
                    0 <= a < 2 && 0 <= b < 2 && (a < i || (a == i && b < j + 1))
                        implies #[trigger] at(
                    data@,
                    2,
                    a,
                    b,
                ) == at(self.data@, 3, kept(a, row as int), kept(b, col as int)) by {
                    if a == i && b == j {
                    } else {
                        assert(a * 2 + b != i * 2 + j);
                        assert(at(before, 2, a, b) == at(
                            self.data@,
                            3,
                            kept(a, row as int),
                            kept(b, col as int),
                        ));
                    }
                }
                j = j + 1;
            }
            i = i + 1;
        }
        M2 { data }
    }
}

impl M2 {
    /// The entry in row `row` and column `col`.
    pub open spec fn entry(self, row: int, col: int) -> Scalar {
        at(self.data@, 2, row, col)
    }

    /// The matrix of the given entries.
    pub fn new(data: [Scalar; 4]) -> (r: M2)
        ensures
            r.data == data,
    {
        M2 { data }
    }

    /// The entry in row `row` and column `column`. Counted row after row,
    /// the place has to be one of the four.
    pub fn get(&self, row: usize, column: usize) -> (r: Scalar)
        requires
            row * 2 + column < 4,
        ensures
            r == self.data@[row * 2 + column],
    {
        self.data[row * 2 + column]
    }
}

/// The cofactor that belongs to a minor: the minor itself where row and
/// column add up to an even number, and the minor with its sign turned
/// where they add up to an odd one.
pub fn cofactor(minor: Scalar, row: usize, col: usize) -> (r: Scalar)
    ensures
        r == if (row + col) % 2 == 1 {
            minor.spec_negated()
        } else {
            minor
        },
{
    if row % 2 != col % 2 {
        minor.negated()
    } else {
        minor
    }
}

/// Whether a matrix with this determinant has an inverse: it has one
/// unless the determinant is zero.
pub fn invertible(determinant: Scalar) -> (r: bool)
    ensures
        r == !determinant.same(Scalar { bits: 0 }),
{
    !determinant.is_zero()
}

/// Transposing twice gives the matrix back.
pub proof fn lemma_transpose_twice(m: M4, once: M4, twice: M4)
    requires
        forall|row: int, col: int|
            0 <= row < 4 && 0 <= col < 4 ==> #[trigger] once.entry(row, col) == m.entry(col, row),
        forall|row: int, col: int|
            0 <= row < 4 && 0 <= col < 4 ==> #[trigger] twice.entry(row, col) == once.entry(
                col,
                row,
            ),
    ensures
        twice.data@ == m.data@,
{
    assert forall|i: int| 0 <= i < 16 implies twice.data@[i] == m.data@[i] by {
        let row = i / 4;
        let col = i % 4;
        assert(twice.entry(row, col) == once.entry(col, row));
        assert(once.entry(col, row) == m.entry(row, col));
    }
    assert(twice.data@ =~= m.data@);
}

} // verus!
