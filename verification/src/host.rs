//! A dense 2-D array in host memory, stored row by row.

use vstd::prelude::*;

use crate::error::ShapeError;
use crate::shape::{lemma_offset_in_bounds, lemma_offset_onto, Shape};

verus! {

/// The mathematical content of a [`HostArray`]: its extents and its elements
/// in row-major order.
pub struct HostView<T> {
    pub shape: Shape,
    pub elems: Seq<T>,
}

impl<T> HostView<T> {
    /// The element in row `i` and column `j`.
    pub open spec fn at(self, i: int, j: int) -> T {
        self.elems[self.shape.offset(i, j)]
    }

    /// Whether `other` is this array with rows and columns exchanged.
    pub open spec fn is_transpose_of(self, other: HostView<T>) -> bool {
        &&& self.shape == other.shape.transposed()
        &&& self.elems.len() == other.elems.len()
        &&& forall|i: int, j: int|
            other.shape.holds(i, j) ==> #[trigger] self.at(j, i) == other.at(i, j)
    }
}

/// A dense matrix held on the host.  The element sequence always has exactly
/// `rows * cols` members.
#[derive(Debug, PartialEq)]
pub struct HostArray<T> {
    rows: usize,
    cols: usize,
    data: Vec<T>,
}

impl<T> View for HostArray<T> {
    type V = HostView<T>;

    closed spec fn view(&self) -> HostView<T> {
        HostView { shape: Shape { rows: self.rows, cols: self.cols }, elems: self.data@ }
    }
}

impl<T> HostArray<T> {
    #[verifier::type_invariant]
    spec fn inv(&self) -> bool {
        &&& self.rows * self.cols <= usize::MAX
        &&& self.data@.len() == self.rows * self.cols
    }

    /// Lays `data` out as a matrix of the given extents.  The length of
    /// `data` has to be the product of the extents: nothing is cut off and
    /// nothing is filled in.
    pub fn from_shape_vec(shape: (usize, usize), data: Vec<T>) -> (r: Result<
        HostArray<T>,
        ShapeError,
    >)
        ensures
            match r {
                Ok(a) => {
                    &&& shape.0 * shape.1 == data@.len()
                    &&& a@ == (HostView {
                        shape: Shape { rows: shape.0, cols: shape.1 },
                        elems: data@,
                    })
                },
                Err(e) => {
                    &&& shape.0 * shape.1 != data@.len()
                    &&& e == (ShapeError::ReshapeLength {
                        shape: Shape { rows: shape.0, cols: shape.1 },
                        len: data@.len() as usize,
                    })
                },
            },
    {
        let rows = shape.0;
        let cols = shape.1;
        let len = data.len();
        match rows.checked_mul(cols) {
            Some(n) if n == len => Ok(HostArray { rows, cols, data }),
            _ => Err(ShapeError::ReshapeLength { shape: Shape { rows, cols }, len }),
        }
    }

    /// The number of rows.
    pub fn nrows(&self) -> (n: usize)
        ensures
            n == self@.shape.rows,
    {
        self.rows
    }

    /// The number of columns.
    pub fn ncols(&self) -> (n: usize)
        ensures
            n == self@.shape.cols,
    {
        self.cols
    }

    /// The extents, which the element sequence fills exactly.
    pub fn shape(&self) -> (s: Shape)
        ensures
            s == self@.shape,
            s.fits(),
            s.count() == self@.elems.len(),
    {
        proof {
            use_type_invariant(self);
        }
        Shape { rows: self.rows, cols: self.cols }
    }

    /// The elements in row-major order.
    pub fn as_vec(&self) -> (v: &Vec<T>)
        ensures
            v@ == self@.elems,
            v@.len() == self@.shape.count(),
    {
        proof {
            use_type_invariant(self);
        }
        &self.data
    }

    /// Gives up the array for its elements in row-major order.
    pub fn into_raw_vec(self) -> (v: Vec<T>)
        ensures
            v@ == self@.elems,
            v@.len() == self@.shape.count(),
    {
        proof {
            use_type_invariant(&self);
        }
        self.data
    }
}

impl<T: Copy> HostArray<T> {
    /// The element in row `i` and column `j`.
    pub fn get(&self, i: usize, j: usize) -> (x: T)
        requires
            self@.shape.holds(i as int, j as int),
        ensures
            x == self@.at(i as int, j as int),
    {
        proof {
            use_type_invariant(self);
        }
        let k = Shape { rows: self.rows, cols: self.cols }.index(i, j);
        self.data[k]
    }

    /// The transposed array: element `(j, i)` of the result is element
    /// `(i, j)` of `self`.
    pub fn t(&self) -> (r: HostArray<T>)
        ensures
            r@.is_transpose_of(self@),
    {
        proof {
            use_type_invariant(self);
        }
        let rows = self.rows;
        let cols = self.cols;
        let shape = Shape { rows, cols };
        let ghost flipped = shape.transposed();
        let mut out: Vec<T> = Vec::new();
        let mut j: usize = 0;
        while j < cols
            invariant
                j <= cols,
                rows == self.rows,
                cols == self.cols,
                shape == (Shape { rows, cols }),
                flipped == shape.transposed(),
                shape.fits(),
                self.data@.len() == rows * cols,
                out@.len() == j * rows,
                forall|a: int, b: int|
                    0 <= b < j && 0 <= a < rows ==> #[trigger] out@[flipped.offset(b, a)]
                        == self.data@[shape.offset(a, b)],
            decreases cols - j,
        {
            let mut i: usize = 0;
            while i < rows
                invariant
                    j < cols,
                    i <= rows,
                    rows == self.rows,
                    cols == self.cols,
                    shape == (Shape { rows, cols }),
                    flipped == shape.transposed(),
                    shape.fits(),
                    self.data@.len() == rows * cols,
                    out@.len() == j * rows + i,
                    forall|a: int, b: int|
                        0 <= b < j && 0 <= a < rows ==> #[trigger] out@[flipped.offset(b, a)]
                            == self.data@[shape.offset(a, b)],
                    forall|a: int|
                        0 <= a < i ==> #[trigger] out@[flipped.offset(j as int, a)]
                            == self.data@[shape.offset(a, j as int)],
                decreases rows - i,
            {
                let k = shape.index(i, j);
                let ghost before = out@;
                out.push(self.data[k]);
                proof {
                    assert forall|a: int, b: int|
                        0 <= b < j && 0 <= a < rows implies #[trigger] out@[flipped.offset(b, a)]
                        == self.data@[shape.offset(a, b)] by {
                        lemma_offset_in_bounds(flipped, b, a);
                        assert(flipped.offset(b, a) < j * rows) by (nonlinear_arith)
                            requires
                                0 <= b < j,
                                0 <= a < rows,
                                flipped.offset(b, a) == b * rows + a,
                        ;
                    }
                    assert forall|a: int|
                        0 <= a < i + 1 implies #[trigger] out@[flipped.offset(j as int, a)]
                        == self.data@[shape.offset(a, j as int)] by {
                        if a < i {
                            assert(out@[flipped.offset(j as int, a)] == before[flipped.offset(
                                j as int,
                                a,
                            )]);
                        }
                    }
                }
                i = i + 1;
            }
            proof {
                assert((j + 1) * rows == j * rows + rows) by (nonlinear_arith);
            }
            j = j + 1;
        }
        proof {
            assert(cols * rows == rows * cols) by (nonlinear_arith);
        }
        HostArray { rows: cols, cols: rows, data: out }
    }
}

/// Transposing twice gives the array back.
pub proof fn lemma_transpose_involution<T>(a: HostView<T>, b: HostView<T>, c: HostView<T>)
    requires
        a.elems.len() == a.shape.count(),
        b.is_transpose_of(a),
        c.is_transpose_of(b),
    ensures
        c.shape == a.shape,
        c.elems =~= a.elems,
{
    assert forall|k: int| 0 <= k < a.elems.len() implies c.elems[k] == a.elems[k] by {
        lemma_offset_onto(a.shape, k);
        let i = k / (a.shape.cols as int);
        let j = k % (a.shape.cols as int);
        assert(c.at(i, j) == b.at(j, i));
    }
}

} // verus!
