//! Extents of a matrix, row-major addressing, and work-item geometry.

use vstd::prelude::*;

verus! {

/// The extents of a dense matrix: `rows` by `cols`.
#[derive(Clone, Copy, Debug, PartialEq, Eq, Structural)]
pub struct Shape {
    pub rows: usize,
    pub cols: usize,
}

impl Shape {
    /// The number of elements of a matrix with these extents.
    pub open spec fn count(self) -> nat {
        (self.rows * self.cols) as nat
    }

    /// Whether the element count can be held in a `usize`.
    pub open spec fn fits(self) -> bool {
        self.rows * self.cols <= usize::MAX
    }

    /// The extents with rows and columns exchanged.
    pub open spec fn transposed(self) -> Shape {
        Shape { rows: self.cols, cols: self.rows }
    }

    /// Whether `(i, j)` names an element.
    pub open spec fn holds(self, i: int, j: int) -> bool {
        0 <= i < self.rows && 0 <= j < self.cols
    }

    /// The place of element `(i, j)` in the row-major sequence.
    pub open spec fn offset(self, i: int, j: int) -> int {
        i * self.cols + j
    }

    /// The extents `rows` by `cols`.
    pub fn new(rows: usize, cols: usize) -> (s: Shape)
        ensures
            s == (Shape { rows, cols }),
    {
        Shape { rows, cols }
    }

    /// The element count, or `None` where it exceeds `usize::MAX`.
    pub fn checked_len(&self) -> (n: Option<usize>)
        ensures
            self.fits() ==> n == Some(self.count() as usize),
            !self.fits() ==> n is None,
    {
        self.rows.checked_mul(self.cols)
    }

    /// The element count.
    pub fn len(&self) -> (n: usize)
        requires
            self.fits(),
        ensures
            n == self.count(),
    {
        self.rows * self.cols
    }

    /// The extents of the transposed matrix.
    pub fn t(&self) -> (s: Shape)
        ensures
            s == self.transposed(),
    {
        Shape { rows: self.cols, cols: self.rows }
    }

    /// The row-major offset of element `(i, j)`.
    pub fn index(&self, i: usize, j: usize) -> (k: usize)
        requires
            self.fits(),
            self.holds(i as int, j as int),
        ensures
            k == self.offset(i as int, j as int),
            k < self.count(),
    {
        proof {
            lemma_offset_in_bounds(*self, i as int, j as int);
        }
        i * self.cols + j
    }
}

/// The shape of a kernel launch or of a buffer: one or two dimensions.
#[derive(Clone, Copy, Debug, PartialEq, Eq, Structural)]
pub enum Geometry {
    One(usize),
    Two(usize, usize),
}

impl Geometry {
    /// The number of work items of a launch, or of elements of a buffer,
    /// with this geometry: the product of its dimensions.
    pub open spec fn extent(self) -> nat {
        match self {
            Geometry::One(n) => n as nat,
            Geometry::Two(a, b) => (a * b) as nat,
        }
    }
}

/// Every element of a matrix has its offset inside the row-major sequence.
pub proof fn lemma_offset_in_bounds(shape: Shape, i: int, j: int)
    requires
        shape.holds(i, j),
    ensures
        0 <= i * shape.cols,
        0 <= shape.offset(i, j) < shape.count(),
{
    let c = shape.cols as int;
    let r = shape.rows as int;
    assert(0 <= i * c && i * c + c <= r * c) by (nonlinear_arith)
        requires
            0 <= i < r,
            0 <= c,
    ;
}

/// Two elements at the same offset are the same element.
pub proof fn lemma_offset_injective(shape: Shape, i1: int, j1: int, i2: int, j2: int)
    requires
        shape.holds(i1, j1),
        shape.holds(i2, j2),
        shape.offset(i1, j1) == shape.offset(i2, j2),
    ensures
        i1 == i2,
        j1 == j2,
{
    let c = shape.cols as int;
    assert(i1 == i2) by (nonlinear_arith)
        requires
            0 <= j1 < c,
            0 <= j2 < c,
            i1 * c + j1 == i2 * c + j2,
    ;
}

/// Every offset below the element count belongs to exactly the element
/// `(k / cols, k % cols)`.
pub proof fn lemma_offset_onto(shape: Shape, k: int)
    requires
        0 <= k < shape.count(),
    ensures
        shape.cols > 0,
        shape.holds(k / (shape.cols as int), k % (shape.cols as int)),
        shape.offset(k / (shape.cols as int), k % (shape.cols as int)) == k,
{
    let c = shape.cols as int;
    let r = shape.rows as int;
    assert(c > 0) by (nonlinear_arith)
        requires
            0 <= k < r * c,
            0 <= c,
    ;
    vstd::arithmetic::div_mod::lemma_fundamental_div_mod(k, c);
    vstd::arithmetic::div_mod::lemma_mod_bound(k, c);
    vstd::arithmetic::div_mod::lemma_div_pos_is_pos(k, c);
    let q = k / c;
    assert(c * q == q * c) by (nonlinear_arith);
    assert(q < r) by (nonlinear_arith)
        requires
            q * c <= k,
            k < r * c,
            0 < c,
    ;
}

/// Transposition moves every element to a place of its own: element `(i, j)`
/// of a matrix has the place `(j, i)` in the transposed matrix, that place
/// lies inside the transposed sequence, which is as long as the sequence it
/// was made from, and no other element shares it.
pub proof fn lemma_transposed_offsets(shape: Shape, i1: int, j1: int, i2: int, j2: int)
    requires
        shape.holds(i1, j1),
        shape.holds(i2, j2),
    ensures
        shape.transposed().holds(j1, i1),
        shape.transposed().count() == shape.count(),
        0 <= shape.transposed().offset(j1, i1) < shape.count(),
        shape.transposed().offset(j1, i1) == shape.transposed().offset(j2, i2) ==> i1 == i2 && j1
            == j2,
{
    let flipped = shape.transposed();
    assert(flipped.count() == shape.count()) by (nonlinear_arith)
        requires
            flipped.rows == shape.cols,
            flipped.cols == shape.rows,
    ;
    lemma_offset_in_bounds(flipped, j1, i1);
    if flipped.offset(j1, i1) == flipped.offset(j2, i2) {
        lemma_offset_injective(flipped, j1, i1, j2, i2);
    }
}

} // verus!
