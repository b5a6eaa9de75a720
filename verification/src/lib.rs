//! Shape-checked dispatch planning for dense, device-resident 2-D arrays.
//!
//! A matrix lives in accelerator memory; the host keeps a handle that records
//! its extents and the element count of its buffer.  Every operation on
//! handles is decided here: the shapes are validated, the kernel is chosen,
//! its arguments are laid out in the kernel's declared order, the work-item
//! geometry is computed and the steps of the dispatch are sequenced.  A driver
//! carries the resulting requests to the device and reports back how each one
//! went.

pub mod device;
pub mod dispatch;
pub mod error;
pub mod host;
pub mod kernel;
pub mod launch;
pub mod opencl;
pub mod shape;
