//! The three families of failure: shapes that do not agree, a device step
//! that did not go through, and a compute context that could not be made.

use vstd::prelude::*;

use crate::kernel::Kernel;
use crate::shape::Shape;

verus! {

/// Extents that do not fit the operation asked for.  Always found on the
/// host, before any request goes to the device.
#[derive(Clone, Copy, Debug, PartialEq, Eq, Structural)]
pub enum ShapeError {
    /// Two operands of an elementwise operation, or a result and the
    /// destination offered for it, differ in extents.
    OperandMismatch { left: Shape, right: Shape },
    /// The columns of the left factor of a product differ from the rows of
    /// the right factor.
    InnerDimension { left_cols: usize, right_rows: usize },
    /// A host sequence of `len` elements cannot be laid out as `shape`.
    ReshapeLength { shape: Shape, len: usize },
}

/// The step of a dispatch at which the device reported a failure.
#[derive(Clone, Copy, Debug, PartialEq, Eq, Structural)]
pub enum Failure {
    /// The destination buffer could not be built.
    Allocation,
    /// The kernel rejected its arguments.
    Binding,
    /// The launch could not be queued.
    Enqueue,
    /// Waiting for the queue to drain failed.
    Wait,
}

/// A failed dispatch: which operation, and at which step.
#[derive(Clone, Copy, Debug, PartialEq, Eq, Structural)]
pub struct DispatchError {
    pub kernel: Kernel,
    pub failure: Failure,
}

/// Why no compute context came to be.
#[derive(Clone, Copy, Debug, PartialEq, Eq, Structural)]
pub enum DeviceError {
    /// No device name contains the filter.
    NotFound,
    /// The kernel program did not compile for the selected device.
    BuildFailure,
    /// The selected device reports that it is not ready.
    Unavailable,
}

} // verus!
