//! The compute context and the handle of a device-resident matrix.
//!
//! A handle never touches device memory itself.  Its constructors say which
//! buffer the driver has to build, its operations say which kernel the driver
//! has to launch and how, and its conversions check what the driver read
//! back.

use core::marker::PhantomData;
use vstd::prelude::*;

use crate::device::{contains, name_matches};
use crate::error::{DeviceError, ShapeError};
use crate::host::HostArray;
use crate::kernel::Kernel;
use crate::launch::{
    binary_plan, dot_plan, scalar_plan, square_plan, transpose_plan, unary_plan, Arg,
    Destination, Launch,
};
use crate::shape::{Geometry, Shape};

verus! {

/// A compute context: the device that was selected, with the kernel program
/// compiled for it and one command queue.  Handles share it by copy.
#[derive(Clone, Copy, Debug, PartialEq, Eq, Structural)]
pub struct CLBackEnd {
    /// The place of the selected device in the enumeration.
    pub device: usize,
}

impl CLBackEnd {
    /// Settles whether a context exists for the device at place `device`,
    /// given how the driver fared with it: whether the kernel program
    /// compiled for it, and whether it reports itself ready.  A program that
    /// did not compile is reported first.
    pub fn new(device: usize, compiled: bool, available: bool) -> (r: Result<
        CLBackEnd,
        DeviceError,
    >)
        ensures
            r == (if !compiled {
                Err::<CLBackEnd, DeviceError>(DeviceError::BuildFailure)
            } else if !available {
                Err(DeviceError::Unavailable)
            } else {
                Ok(CLBackEnd { device })
            }),
    {
        if !compiled {
            Err(DeviceError::BuildFailure)
        } else if !available {
            Err(DeviceError::Unavailable)
        } else {
            Ok(CLBackEnd { device })
        }
    }
}

/// Selects the device to build the context on: the first of the enumerated
/// devices whose name contains `gpu_type`.  `names` holds the device names in
/// the order of the enumeration.
pub fn build_ocl_proque(gpu_type: String, names: &Vec<String>) -> (r: Result<usize, DeviceError>)
    ensures
        match r {
            Ok(i) => {
                &&& i < names@.len()
                &&& name_matches(names@[i as int]@, gpu_type@)
                &&& forall|j: int|
                    0 <= j < i ==> !name_matches(#[trigger] names@[j]@, gpu_type@)
            },
            Err(e) => {
                &&& e == DeviceError::NotFound
                &&& forall|j: int|
                    0 <= j < names@.len() ==> !name_matches(#[trigger] names@[j]@, gpu_type@)
            },
        },
{
    let filter = gpu_type.as_str();
    let mut i: usize = 0;
    while i < names.len()
        invariant
            i <= names@.len(),
            filter@ == gpu_type@,
            forall|j: int| 0 <= j < i ==> !name_matches(#[trigger] names@[j]@, gpu_type@),
        decreases names@.len() - i,
    {
        if contains(names[i].as_str(), filter) {
            return Ok(i);
        }
        i = i + 1;
    }
    Err(DeviceError::NotFound)
}

/// A region of device memory, always readable and writable, as the host
/// knows it: by the dimensions it was built with.  Their product is its
/// element count, which never changes.
#[derive(Clone, Copy, Debug, PartialEq, Eq, Structural)]
pub struct DeviceBuffer {
    pub dims: Geometry,
}

/// What the driver copies into a buffer that it builds.
#[derive(Debug, PartialEq)]
pub enum Fill<T> {
    /// As many zeros.
    Zeros(usize),
    /// These values, in this order.
    Values(Vec<T>),
}

/// The mathematical content of a [`Fill`].
pub enum FillView<T> {
    Zeros(nat),
    Values(Seq<T>),
}

impl<T> FillView<T> {
    /// The number of elements that the buffer receives.
    pub open spec fn len(self) -> nat {
        match self {
            FillView::Zeros(n) => n,
            FillView::Values(v) => v.len(),
        }
    }
}

impl<T> View for Fill<T> {
    type V = FillView<T>;

    open spec fn view(&self) -> FillView<T> {
        match self {
            Fill::Zeros(n) => FillView::Zeros(*n as nat),
            Fill::Values(v) => FillView::Values(v@),
        }
    }
}

/// The mathematical content of an [`OpenCLArray`].
pub struct ArrayView {
    pub backend: CLBackEnd,
    pub buffer: DeviceBuffer,
    pub shape: Shape,
}

impl ArrayView {
    /// The buffer holds exactly the elements of the matrix, and their number
    /// fits in memory.
    pub open spec fn wf(self) -> bool {
        &&& self.shape.fits()
        &&& self.buffer.dims.extent() == self.shape.count()
    }
}

/// The handle of a matrix that lives in device memory.  Its extents are fixed
/// when it is made, and its buffer always holds `rows * cols` elements of
/// type `T`.  It owns its buffer alone: a handle cannot be copied.
#[derive(Debug)]
pub struct OpenCLArray<T> {
    backend: CLBackEnd,
    v: DeviceBuffer,
    rows: usize,
    cols: usize,
    elem: PhantomData<T>,
}

impl<T> View for OpenCLArray<T> {
    type V = ArrayView;

    closed spec fn view(&self) -> ArrayView {
        ArrayView {
            backend: self.backend,
            buffer: self.v,
            shape: Shape { rows: self.rows, cols: self.cols },
        }
    }
}

/// The sequence that a download of a matrix of the given shape yields from
/// what the device read back: the same sequence where it has one element for
/// each element of the matrix, and an error otherwise.
pub open spec fn downloaded<T>(shape: Shape, data: Seq<T>) -> Result<Seq<T>, ShapeError> {
    if data.len() == shape.count() {
        Ok(data)
    } else {
        Err(ShapeError::ReshapeLength { shape, len: data.len() as usize })
    }
}

impl<T> OpenCLArray<T> {
    #[verifier::type_invariant]
    spec fn inv(&self) -> bool {
        self@.wf()
    }

    /// The handle of a zero-filled matrix, together with what the driver
    /// copies into the buffer that it builds for it: `rows * cols` zeros.
    pub fn new(backend: CLBackEnd, rows: usize, cols: usize) -> (r: (OpenCLArray<T>, Fill<T>))
        requires
            rows * cols <= usize::MAX,
        ensures
            r.0@ == (ArrayView {
                backend,
                buffer: DeviceBuffer { dims: Geometry::Two(rows, cols) },
                shape: Shape { rows, cols },
            }),
            r.0@.wf(),
            r.1@ == FillView::<T>::Zeros((rows * cols) as nat),
    {
        let a = OpenCLArray {
            backend,
            v: DeviceBuffer { dims: Geometry::Two(rows, cols) },
            rows,
            cols,
            elem: PhantomData,
        };
        (a, Fill::Zeros(rows * cols))
    }

    /// The handle of a matrix with the given elements, row by row, together
    /// with what the driver copies into the buffer that it builds for it:
    /// the elements of `v`, as they are.
    pub fn from_vec(backend: CLBackEnd, rows: usize, cols: usize, v: Vec<T>) -> (r: (
        OpenCLArray<T>,
        Fill<T>,
    ))
        requires
            v@.len() == rows * cols,
        ensures
            r.0@ == (ArrayView {
                backend,
                buffer: DeviceBuffer { dims: Geometry::Two(rows, cols) },
                shape: Shape { rows, cols },
            }),
            r.0@.wf(),
            r.1@ == FillView::Values(v@),
    {
        // the length of `v` is a `usize`, hence so is the element count
        assert(v.len() == rows * cols);
        let a = OpenCLArray {
            backend,
            v: DeviceBuffer { dims: Geometry::Two(rows, cols) },
            rows,
            cols,
            elem: PhantomData,
        };
        (a, Fill::Values(v))
    }

    /// The handle of the matrix that a completed launch left in a buffer of
    /// the given dimensions.
    pub(crate) fn adopt(backend: CLBackEnd, dims: Geometry, shape: Shape) -> (a: OpenCLArray<T>)
        requires
            shape.fits(),
            dims.extent() == shape.count(),
        ensures
            a@ == (ArrayView { backend, buffer: DeviceBuffer { dims }, shape }),
    {
        OpenCLArray {
            backend,
            v: DeviceBuffer { dims },
            rows: shape.rows,
            cols: shape.cols,
            elem: PhantomData,
        }
    }

    /// The context that the matrix belongs to.
    pub fn backend(&self) -> (b: CLBackEnd)
        ensures
            b == self@.backend,
    {
        self.backend
    }

    /// The buffer of the matrix.
    pub fn buffer(&self) -> (b: DeviceBuffer)
        ensures
            b == self@.buffer,
            b.dims.extent() == self@.shape.count(),
    {
        proof {
            use_type_invariant(self);
        }
        self.v
    }

    /// The number of rows.
    pub fn rows(&self) -> (n: usize)
        ensures
            n == self@.shape.rows,
    {
        self.rows
    }

    /// The number of columns.
    pub fn cols(&self) -> (n: usize)
        ensures
            n == self@.shape.cols,
    {
        self.cols
    }

    /// The extents of the matrix.
    pub fn shape(&self) -> (s: Shape)
        ensures
            s == self@.shape,
            self@.wf(),
    {
        proof {
            use_type_invariant(self);
        }
        Shape { rows: self.rows, cols: self.cols }
    }

    /// The element count of the matrix and of its buffer: what a download
    /// has to read.
    pub fn len(&self) -> (n: usize)
        ensures
            n == self@.shape.count(),
            n == self@.buffer.dims.extent(),
    {
        proof {
            use_type_invariant(self);
        }
        self.rows * self.cols
    }

    /// Ends the life of the handle and hands out what the driver read from
    /// its buffer, after checking that nothing is missing and nothing is in
    /// excess.
    pub fn to_vec(self, data: Vec<T>) -> (r: Result<Vec<T>, ShapeError>)
        ensures
            match r {
                Ok(v) => downloaded(self@.shape, data@) == Ok::<Seq<T>, ShapeError>(v@),
                Err(e) => downloaded(self@.shape, data@) == Err::<Seq<T>, ShapeError>(e),
            },
    {
        proof {
            use_type_invariant(&self);
        }
        let len = data.len();
        if len == self.rows * self.cols {
            Ok(data)
        } else {
            Err(ShapeError::ReshapeLength { shape: Shape { rows: self.rows, cols: self.cols }, len })
        }
    }

    /// Ends the life of the handle and lays out what the driver read from
    /// its buffer as a host array with the extents of the matrix.
    pub fn to_array(self, data: Vec<T>) -> (r: Result<HostArray<T>, ShapeError>)
        ensures
            match r {
                Ok(a) => {
                    &&& downloaded(self@.shape, data@) == Ok::<Seq<T>, ShapeError>(a@.elems)
                    &&& a@.shape == self@.shape
                },
                Err(e) => downloaded(self@.shape, data@) == Err::<Seq<T>, ShapeError>(e),
            },
    {
        HostArray::from_shape_vec((self.rows, self.cols), data)
    }

    /// Squares every element in place.  The matrix keeps its extents and its
    /// buffer; the launch has one work item for each element.
    pub fn square(&mut self) -> (l: Launch<T>)
        ensures
            final(self)@ == old(self)@,
            l@ == square_plan::<T>(old(self)@.backend, old(self)@.shape),
            l@.wf(),
    {
        proof {
            use_type_invariant(&*self);
        }
        let n = self.rows * self.cols;
        let mut args: Vec<Arg<T>> = Vec::new();
        args.push(Arg::Operand(0));
        let ghost plan = square_plan::<T>(self@.backend, self@.shape);
        assert(args@ =~= plan.args);
        Launch::assemble(
            self.backend,
            Kernel::Square,
            args,
            Geometry::One(n),
            Shape { rows: self.rows, cols: self.cols },
            Destination::Supplied,
        )
    }

    /// Transposes the matrix into a new one of `cols` by `rows`.  The launch
    /// has one work item for each element `(i, j)` read; the kernel is told
    /// the extents of its input, which the launch geometry alone does not
    /// carry into the flat buffers.
    pub fn t(&mut self) -> (l: Launch<T>)
        ensures
            final(self)@ == old(self)@,
            l@ == transpose_plan::<T>(old(self)@.backend, old(self)@.shape),
            l@.result == old(self)@.shape.transposed(),
            l@.wf(),
    {
        proof {
            use_type_invariant(&*self);
            assert(self.cols * self.rows == self.rows * self.cols) by (nonlinear_arith);
        }
        let mut args: Vec<Arg<T>> = Vec::new();
        args.push(Arg::Operand(0));
        args.push(Arg::Output);
        args.push(Arg::Extent(self.rows));
        args.push(Arg::Extent(self.cols));
        let ghost plan = transpose_plan::<T>(self@.backend, self@.shape);
        assert(args@ =~= plan.args);
        Launch::assemble(
            self.backend,
            Kernel::Transpose,
            args,
            Geometry::Two(self.rows, self.cols),
            Shape { rows: self.cols, cols: self.rows },
            Destination::Fresh(Geometry::Two(self.cols, self.rows)),
        )
    }

    /// The matrix product of `self` and `b`, a new matrix of `self.rows` by
    /// `b.cols`.  The columns of `self` have to be the rows of `b`.  Both
    /// matrices have to belong to one context, and the result has to fit in
    /// memory.
    pub fn dot(&self, b: &OpenCLArray<T>) -> (r: Result<Launch<T>, ShapeError>)
        requires
            self@.backend == b@.backend,
            self@.shape.rows * b@.shape.cols <= usize::MAX,
        ensures
            match r {
                Ok(l) => {
                    &&& self@.shape.cols == b@.shape.rows
                    &&& l@ == dot_plan::<T>(self@.backend, self@.shape, b@.shape)
                    &&& l@.result == (Shape { rows: self@.shape.rows, cols: b@.shape.cols })
                    &&& l@.wf()
                },
                Err(e) => {
                    &&& self@.shape.cols != b@.shape.rows
                    &&& e == (ShapeError::InnerDimension {
                        left_cols: self@.shape.cols,
                        right_rows: b@.shape.rows,
                    })
                },
            },
    {
        if self.cols != b.rows {
            return Err(ShapeError::InnerDimension { left_cols: self.cols, right_rows: b.rows });
        }
        let (n, m, k) = (self.rows, self.cols, b.cols);
        let mut args: Vec<Arg<T>> = Vec::new();
        args.push(Arg::Operand(0));
        args.push(Arg::Operand(1));
        args.push(Arg::Output);
        args.push(Arg::Extent(m));
        args.push(Arg::Extent(k));
        let ghost plan = dot_plan::<T>(self@.backend, self@.shape, b@.shape);
        assert(args@ =~= plan.args);
        Ok(
            Launch::assemble(
                self.backend,
                Kernel::DotProduct,
                args,
                Geometry::Two(n, k),
                Shape { rows: n, cols: k },
                Destination::Fresh(Geometry::Two(n, k)),
            ),
        )
    }

    /// The launch of an elementwise kernel on `self` and `b`, in this order.
    fn elementwise(&self, b: &OpenCLArray<T>, kernel: Kernel) -> (r: Result<
        Launch<T>,
        ShapeError,
    >)
        requires
            kernel == Kernel::Add || kernel == Kernel::Subtract || kernel == Kernel::Hadamard,
        ensures
            match r {
                Ok(l) => {
                    &&& self@.shape == b@.shape
                    &&& l@ == binary_plan::<T>(kernel, self@.backend, self@.shape)
                    &&& l@.wf()
                },
                Err(e) => {
                    &&& self@.shape != b@.shape
                    &&& e == (ShapeError::OperandMismatch { left: self@.shape, right: b@.shape })
                },
            },
    {
        proof {
            use_type_invariant(self);
        }
        if self.rows != b.rows || self.cols != b.cols {
            return Err(
                ShapeError::OperandMismatch {
                    left: Shape { rows: self.rows, cols: self.cols },
                    right: Shape { rows: b.rows, cols: b.cols },
                },
            );
        }
        let (n, m) = (self.rows, self.cols);
        let mut args: Vec<Arg<T>> = Vec::new();
        args.push(Arg::Operand(0));
        args.push(Arg::Operand(1));
        args.push(Arg::Output);
        let ghost plan = binary_plan::<T>(kernel, self@.backend, self@.shape);
        assert(args@ =~= plan.args);
        Ok(
            Launch::assemble(
                self.backend,
                kernel,
                args,
                Geometry::One(n * m),
                Shape { rows: n, cols: m },
                Destination::Fresh(Geometry::One(n * m)),
            ),
        )
    }

    /// The elementwise product of `self` and `b`, a new matrix of their
    /// shape.  Both have to belong to one context.
    pub fn hadamard(&self, b: &OpenCLArray<T>) -> (r: Result<Launch<T>, ShapeError>)
        requires
            self@.backend == b@.backend,
        ensures
            match r {
                Ok(l) => {
                    &&& self@.shape == b@.shape
                    &&& l@ == binary_plan::<T>(Kernel::Hadamard, self@.backend, self@.shape)
                    &&& l@.wf()
                },
                Err(e) => {
                    &&& self@.shape != b@.shape
                    &&& e == (ShapeError::OperandMismatch { left: self@.shape, right: b@.shape })
                },
            },
    {
        self.elementwise(b, Kernel::Hadamard)
    }

    /// The elementwise sum of `self` and `b`, a new matrix of their shape.
    /// Both have to belong to one context.
    pub fn add(&self, b: &OpenCLArray<T>) -> (r: Result<Launch<T>, ShapeError>)
        requires
            self@.backend == b@.backend,
        ensures
            match r {
                Ok(l) => {
                    &&& self@.shape == b@.shape
                    &&& l@ == binary_plan::<T>(Kernel::Add, self@.backend, self@.shape)
                    &&& l@.wf()
                },
                Err(e) => {
                    &&& self@.shape != b@.shape
                    &&& e == (ShapeError::OperandMismatch { left: self@.shape, right: b@.shape })
                },
            },
    {
        self.elementwise(b, Kernel::Add)
    }

    /// The elementwise difference `self - b`, a new matrix of their shape.
    /// Both have to belong to one context.
    pub fn subtract(&self, b: &OpenCLArray<T>) -> (r: Result<Launch<T>, ShapeError>)
        requires
            self@.backend == b@.backend,
        ensures
            match r {
                Ok(l) => {
                    &&& self@.shape == b@.shape
                    &&& l@ == binary_plan::<T>(Kernel::Subtract, self@.backend, self@.shape)
                    &&& l@.wf()
                },
                Err(e) => {
                    &&& self@.shape != b@.shape
                    &&& e == (ShapeError::OperandMismatch { left: self@.shape, right: b@.shape })
                },
            },
    {
        self.elementwise(b, Kernel::Subtract)
    }

    /// Every element multiplied by `coeff`, a new matrix of the same shape.
    /// The coefficient goes to the kernel as an immediate, after the two
    /// buffers.
    pub fn scalar_multiply(&self, coeff: T) -> (l: Launch<T>)
        ensures
            l@ == scalar_plan::<T>(self@.backend, self@.shape, coeff),
            l@.wf(),
    {
        proof {
            use_type_invariant(self);
        }
        let (n, m) = (self.rows, self.cols);
        let mut args: Vec<Arg<T>> = Vec::new();
        args.push(Arg::Operand(0));
        args.push(Arg::Output);
        args.push(Arg::Scalar(coeff));
        let ghost plan = scalar_plan::<T>(self@.backend, self@.shape, coeff);
        assert(args@ =~= plan.args);
        Launch::assemble(
            self.backend,
            Kernel::MultiplyByScalar,
            args,
            Geometry::One(n * m),
            Shape { rows: n, cols: m },
            Destination::Fresh(Geometry::One(n * m)),
        )
    }

    /// The launch of an elementwise kernel on `self` alone.
    fn map(&self, kernel: Kernel) -> (l: Launch<T>)
        requires
            kernel == Kernel::Sigmoid || kernel == Kernel::SigmoidPrime,
        ensures
            l@ == unary_plan::<T>(kernel, self@.backend, self@.shape),
            l@.wf(),
    {
        proof {
            use_type_invariant(self);
        }
        let (n, m) = (self.rows, self.cols);
        let mut args: Vec<Arg<T>> = Vec::new();
        args.push(Arg::Operand(0));
        args.push(Arg::Output);
        let ghost plan = unary_plan::<T>(kernel, self@.backend, self@.shape);
        assert(args@ =~= plan.args);
        Launch::assemble(
            self.backend,
            kernel,
            args,
            Geometry::One(n * m),
            Shape { rows: n, cols: m },
            Destination::Fresh(Geometry::One(n * m)),
        )
    }

    /// The logistic function of every element, a new matrix of the same
    /// shape.
    pub fn sigmoid(&self) -> (l: Launch<T>)
        ensures
            l@ == unary_plan::<T>(Kernel::Sigmoid, self@.backend, self@.shape),
            l@.wf(),
    {
        self.map(Kernel::Sigmoid)
    }

    /// The derivative of the logistic function at every element, a new
    /// matrix of the same shape.
    pub fn sigmoid_prime(&self) -> (l: Launch<T>)
        ensures
            l@ == unary_plan::<T>(Kernel::SigmoidPrime, self@.backend, self@.shape),
            l@.wf(),
    {
        self.map(Kernel::SigmoidPrime)
    }
}

impl<T: Copy> OpenCLArray<T> {
    /// The handle of a matrix with the extents and the elements of `array`,
    /// together with what the driver copies into the buffer that it builds
    /// for it: the elements of `array`, row by row.
    pub fn from_array(backend: CLBackEnd, array: &HostArray<T>) -> (r: (
        OpenCLArray<T>,
        Fill<T>,
    ))
        ensures
            r.0@ == (ArrayView {
                backend,
                buffer: DeviceBuffer {
                    dims: Geometry::Two(array@.shape.rows, array@.shape.cols),
                },
                shape: array@.shape,
            }),
            r.0@.wf(),
            r.1@ == FillView::Values(array@.elems),
    {
        let v = create_vec(array);
        let shape = array.shape();
        OpenCLArray::from_vec(backend, shape.rows, shape.cols, v)
    }
}

/// The elements of `arr`, row by row, in a sequence of their own.
pub fn create_vec<T: Copy>(arr: &HostArray<T>) -> (v: Vec<T>)
    ensures
        v@ == arr@.elems,
        v@.len() == arr@.shape.count(),
{
    let data = arr.as_vec();
    let mut v: Vec<T> = Vec::new();
    let mut k: usize = 0;
    while k < data.len()
        invariant
            k <= data@.len(),
            v@ == data@.subrange(0, k as int),
        decreases data@.len() - k,
    {
        v.push(data[k]);
        k = k + 1;
    }
    v
}

/// What was uploaded reads back unchanged.  A matrix of `rows` by `cols`
/// made from the sequence `v` has the driver copy exactly `v` into its
/// buffer; where the driver reads exactly `v` back, the download hands out
/// `v`, element for element.
pub proof fn lemma_round_trip<T>(rows: usize, cols: usize, v: Seq<T>)
    requires
        v.len() == rows * cols,
    ensures
        FillView::Values(v).len() == (Shape { rows, cols }).count(),
        downloaded(Shape { rows, cols }, v) == Ok::<Seq<T>, ShapeError>(v),
{
}

} // verus!
