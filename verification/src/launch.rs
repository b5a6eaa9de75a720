//! A kernel launch as the driver needs it: kernel, arguments in declared
//! order, work-item geometry, and where the result goes.

use vstd::prelude::*;

use crate::error::ShapeError;
use crate::kernel::{Kernel, Role};
use crate::opencl::{CLBackEnd, Fill, FillView, OpenCLArray};
use crate::shape::{Geometry, Shape};

verus! {

/// One argument of a launch.
#[derive(Debug, PartialEq)]
pub enum Arg<T> {
    /// The buffer of an input matrix: `0` is the receiver of the operation,
    /// `1` its other operand.
    Operand(usize),
    /// The buffer that receives the result.
    Output,
    /// A dimension.
    Extent(usize),
    /// An immediate of the element type.
    Scalar(T),
}

impl<T> Arg<T> {
    /// Whether the argument may stand at a position with the given role.
    pub open spec fn fills(self, role: Role) -> bool {
        match self {
            Arg::Operand(_) => role == Role::Source || role == Role::Target,
            Arg::Output => role == Role::Sink,
            Arg::Extent(_) => role == Role::Extent,
            Arg::Scalar(_) => role == Role::Scalar,
        }
    }
}

/// Where the result of a launch is written.
#[derive(Clone, Copy, Debug, PartialEq, Eq, Structural)]
pub enum Destination {
    /// A zero-filled buffer that the driver builds with these dimensions.
    /// The caller is blocked until the device has completed the launch.
    Fresh(Geometry),
    /// A buffer that the caller already owns: one offered for the result, or
    /// the operand itself where the kernel works in place.  The launch is
    /// queued and the caller goes on.
    Supplied,
}

/// The mathematical content of a [`Launch`].
pub struct LaunchView<T> {
    pub backend: CLBackEnd,
    pub kernel: Kernel,
    pub args: Seq<Arg<T>>,
    pub global: Geometry,
    pub result: Shape,
    pub destination: Destination,
}

impl<T> LaunchView<T> {
    /// A launch is well formed when its arguments fit the parameter list of
    /// its kernel, its operands exist, its geometry has one work item for
    /// each element of a result that fits in memory, and a fresh destination
    /// has room for exactly that result.
    pub open spec fn wf(self) -> bool {
        &&& self.args.len() == self.kernel.signature().len()
        &&& forall|k: int|
            0 <= k < self.args.len() ==> (#[trigger] self.args[k]).fills(
                self.kernel.signature()[k],
            )
        &&& forall|k: int|
            0 <= k < self.args.len() ==> ((#[trigger] self.args[k]) matches Arg::Operand(n)
                ==> n < self.kernel.operands())
        &&& self.result.fits()
        &&& self.global.extent() == self.result.count()
        &&& (self.destination matches Destination::Fresh(dims) ==> dims.extent()
            == self.result.count())
        &&& (self.kernel.in_place() ==> self.destination == Destination::Supplied)
    }

    /// The same launch, writing into a buffer that the caller supplies.
    pub open spec fn onto(self) -> LaunchView<T> {
        LaunchView { destination: Destination::Supplied, ..self }
    }
}

/// The launch that squares every element of a matrix in place.
pub open spec fn square_plan<T>(backend: CLBackEnd, shape: Shape) -> LaunchView<T> {
    LaunchView {
        backend,
        kernel: Kernel::Square,
        args: seq![Arg::Operand(0)],
        global: Geometry::One(shape.count() as usize),
        result: shape,
        destination: Destination::Supplied,
    }
}

/// The launch of an elementwise kernel on two matrices of one shape.
pub open spec fn binary_plan<T>(kernel: Kernel, backend: CLBackEnd, shape: Shape) -> LaunchView<
    T,
> {
    LaunchView {
        backend,
        kernel,
        args: seq![Arg::Operand(0), Arg::Operand(1), Arg::Output],
        global: Geometry::One(shape.count() as usize),
        result: shape,
        destination: Destination::Fresh(Geometry::One(shape.count() as usize)),
    }
}

/// The launch of an elementwise kernel on one matrix.
pub open spec fn unary_plan<T>(kernel: Kernel, backend: CLBackEnd, shape: Shape) -> LaunchView<
    T,
> {
    LaunchView {
        backend,
        kernel,
        args: seq![Arg::Operand(0), Arg::Output],
        global: Geometry::One(shape.count() as usize),
        result: shape,
        destination: Destination::Fresh(Geometry::One(shape.count() as usize)),
    }
}

/// The launch that multiplies every element of a matrix by `coeff`.
pub open spec fn scalar_plan<T>(backend: CLBackEnd, shape: Shape, coeff: T) -> LaunchView<T> {
    LaunchView {
        backend,
        kernel: Kernel::MultiplyByScalar,
        args: seq![Arg::Operand(0), Arg::Output, Arg::Scalar(coeff)],
        global: Geometry::One(shape.count() as usize),
        result: shape,
        destination: Destination::Fresh(Geometry::One(shape.count() as usize)),
    }
}

/// The launch that transposes a matrix of the given shape: one work item for
/// each element read, and the extents of the input as explicit arguments.
pub open spec fn transpose_plan<T>(backend: CLBackEnd, shape: Shape) -> LaunchView<T> {
    LaunchView {
        backend,
        kernel: Kernel::Transpose,
        args: seq![Arg::Operand(0), Arg::Output, Arg::Extent(shape.rows), Arg::Extent(shape.cols)],
        global: Geometry::Two(shape.rows, shape.cols),
        result: shape.transposed(),
        destination: Destination::Fresh(Geometry::Two(shape.cols, shape.rows)),
    }
}

/// The launch of the matrix product of `left` and `right`: one work item for
/// each element of the result, the shared dimension and the columns of the
/// result as explicit arguments.
pub open spec fn dot_plan<T>(backend: CLBackEnd, left: Shape, right: Shape) -> LaunchView<T> {
    LaunchView {
        backend,
        kernel: Kernel::DotProduct,
        args: seq![
            Arg::Operand(0),
            Arg::Operand(1),
            Arg::Output,
            Arg::Extent(left.cols),
            Arg::Extent(right.cols),
        ],
        global: Geometry::Two(left.rows, right.cols),
        result: Shape { rows: left.rows, cols: right.cols },
        destination: Destination::Fresh(Geometry::Two(left.rows, right.cols)),
    }
}

/// A planned kernel launch.  Only the operations of a matrix handle make one,
/// so every launch is well formed.
#[derive(Debug)]
pub struct Launch<T> {
    backend: CLBackEnd,
    kernel: Kernel,
    args: Vec<Arg<T>>,
    global: Geometry,
    result: Shape,
    destination: Destination,
}

impl<T> View for Launch<T> {
    type V = LaunchView<T>;

    closed spec fn view(&self) -> LaunchView<T> {
        LaunchView {
            backend: self.backend,
            kernel: self.kernel,
            args: self.args@,
            global: self.global,
            result: self.result,
            destination: self.destination,
        }
    }
}

impl<T> Launch<T> {
    #[verifier::type_invariant]
    spec fn inv(&self) -> bool {
        self@.wf()
    }

    /// Puts a launch together from its parts.
    pub(crate) fn assemble(
        backend: CLBackEnd,
        kernel: Kernel,
        args: Vec<Arg<T>>,
        global: Geometry,
        result: Shape,
        destination: Destination,
    ) -> (l: Launch<T>)
        requires
            (LaunchView { backend, kernel, args: args@, global, result, destination }).wf(),
        ensures
            l@ == (LaunchView { backend, kernel, args: args@, global, result, destination }),
    {
        Launch { backend, kernel, args, global, result, destination }
    }

    /// The context that the launch runs in.
    pub fn backend(&self) -> (b: CLBackEnd)
        ensures
            b == self@.backend,
    {
        self.backend
    }

    /// The kernel to run.
    pub fn kernel(&self) -> (k: Kernel)
        ensures
            k == self@.kernel,
    {
        self.kernel
    }

    /// The arguments, in the order in which the kernel declares its
    /// parameters.
    pub fn args(&self) -> (a: &Vec<Arg<T>>)
        ensures
            a@ == self@.args,
            self@.wf(),
    {
        proof {
            use_type_invariant(self);
        }
        &self.args
    }

    /// The global work size.
    pub fn global(&self) -> (g: Geometry)
        ensures
            g == self@.global,
            g.extent() == self@.result.count(),
    {
        proof {
            use_type_invariant(self);
        }
        self.global
    }

    /// The extents of the result.
    pub fn result(&self) -> (s: Shape)
        ensures
            s == self@.result,
            s.fits(),
    {
        proof {
            use_type_invariant(self);
        }
        self.result
    }

    /// Where the result is written.
    pub fn destination(&self) -> (d: Destination)
        ensures
            d == self@.destination,
            d matches Destination::Fresh(dims) ==> dims.extent() == self@.result.count(),
    {
        proof {
            use_type_invariant(self);
        }
        self.destination
    }

    /// What the driver has to build before it binds the arguments: for a
    /// fresh destination a buffer of its dimensions, filled with one zero
    /// for each element of the result; for a supplied destination nothing.
    pub fn allocation(&self) -> (r: Option<(Geometry, Fill<T>)>)
        ensures
            match self@.destination {
                Destination::Fresh(dims) => r matches Some(b) && b.0 == dims && b.1@
                    == FillView::<T>::Zeros(self@.result.count()) && dims.extent()
                    == self@.result.count(),
                Destination::Supplied => r is None,
            },
    {
        proof {
            use_type_invariant(self);
        }
        match self.destination {
            Destination::Fresh(dims) => Some(
                (dims, Fill::Zeros(self.result.rows * self.result.cols)),
            ),
            Destination::Supplied => None,
        }
    }

    /// Directs the result into `dest`, a matrix that the caller already
    /// owns, in place of a fresh buffer.  The launch is otherwise unchanged,
    /// and so is the handle `dest`: only its buffer will be written.  `dest`
    /// has to have the extents of the result and to belong to the context of
    /// the launch.
    pub fn onto(self, dest: &mut OpenCLArray<T>) -> (r: Result<Launch<T>, ShapeError>)
        requires
            old(dest)@.backend == self@.backend,
        ensures
            final(dest)@ == old(dest)@,
            match r {
                Ok(l) => {
                    &&& old(dest)@.shape == self@.result
                    &&& l@ == self@.onto()
                    &&& l@.wf()
                },
                Err(e) => {
                    &&& old(dest)@.shape != self@.result
                    &&& e == (ShapeError::OperandMismatch {
                        left: self@.result,
                        right: old(dest)@.shape,
                    })
                },
            },
    {
        proof {
            use_type_invariant(&self);
        }
        let found = dest.shape();
        if found.rows != self.result.rows || found.cols != self.result.cols {
            return Err(ShapeError::OperandMismatch { left: self.result, right: found });
        }
        Ok(
            Launch {
                backend: self.backend,
                kernel: self.kernel,
                args: self.args,
                global: self.global,
                result: self.result,
                destination: Destination::Supplied,
            },
        )
    }
}

} // verus!
