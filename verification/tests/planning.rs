// What each operation asks of the device: kernel, arguments, geometry,
// extents of the result, and destination.

use carya::error::ShapeError;
use carya::kernel::Role::{Extent, Scalar, Sink, Source, Target};
use carya::kernel::{Kernel, Role};
use carya::launch::{Arg, Destination, Launch};
use carya::opencl::{CLBackEnd, DeviceBuffer, Fill, OpenCLArray};
use carya::shape::{Geometry, Shape};

fn backend() -> CLBackEnd {
    CLBackEnd { device: 0 }
}

fn matrix(rows: usize, cols: usize) -> OpenCLArray<f32> {
    OpenCLArray::new(backend(), rows, cols).0
}

fn check(
    launch: &Launch<f32>,
    kernel: Kernel,
    args: Vec<Arg<f32>>,
    global: Geometry,
    result: Shape,
    destination: Destination,
) {
    assert_eq!(launch.backend(), backend());
    assert_eq!(launch.kernel(), kernel);
    assert_eq!(launch.args(), &args);
    assert_eq!(launch.global(), global);
    assert_eq!(launch.result(), result);
    assert_eq!(launch.destination(), destination);
}

#[test]
fn kernel_names_are_those_of_the_device_program() {
    assert_eq!(Kernel::Square.name(), "square");
    assert_eq!(Kernel::Add.name(), "add");
    assert_eq!(Kernel::Subtract.name(), "subtract");
    assert_eq!(Kernel::Hadamard.name(), "hadamard");
    assert_eq!(Kernel::MultiplyByScalar.name(), "multiply_by_scalar");
    assert_eq!(Kernel::Sigmoid.name(), "sigmoid");
    assert_eq!(Kernel::SigmoidPrime.name(), "sigmoid_prime");
    assert_eq!(Kernel::Transpose.name(), "transpose");
    assert_eq!(Kernel::DotProduct.name(), "dot_product");
}

#[test]
fn kernel_parameter_lists() {
    assert_eq!(Kernel::Square.roles(), vec![Target]);
    assert_eq!(Kernel::Add.roles(), vec![Source, Source, Sink]);
    assert_eq!(Kernel::Subtract.roles(), vec![Source, Source, Sink]);
    assert_eq!(Kernel::Hadamard.roles(), vec![Source, Source, Sink]);
    assert_eq!(Kernel::MultiplyByScalar.roles(), vec![Source, Sink, Scalar]);
    assert_eq!(Kernel::Sigmoid.roles(), vec![Source, Sink]);
    assert_eq!(Kernel::SigmoidPrime.roles(), vec![Source, Sink]);
    assert_eq!(Kernel::Transpose.roles(), vec![Source, Sink, Extent, Extent]);
    assert_eq!(Kernel::DotProduct.roles(), vec![Source, Source, Sink, Extent, Extent]);
}

#[test]
fn kernel_operand_counts() {
    let all = [
        (Kernel::Square, 1),
        (Kernel::Add, 2),
        (Kernel::Subtract, 2),
        (Kernel::Hadamard, 2),
        (Kernel::MultiplyByScalar, 1),
        (Kernel::Sigmoid, 1),
        (Kernel::SigmoidPrime, 1),
        (Kernel::Transpose, 1),
        (Kernel::DotProduct, 2),
    ];
    for (kernel, operands) in all {
        assert_eq!(kernel.arity(), operands);
        let reads = kernel
            .roles()
            .iter()
            .filter(|r| **r == Role::Source || **r == Role::Target)
            .count();
        assert_eq!(reads, operands);
    }
}

#[test]
fn new_handle_describes_a_two_dimensional_buffer_of_zeros() {
    let (a, fill) = OpenCLArray::<f32>::new(backend(), 3, 4);
    assert_eq!(a.backend(), backend());
    assert_eq!(a.rows(), 3);
    assert_eq!(a.cols(), 4);
    assert_eq!(a.shape(), Shape { rows: 3, cols: 4 });
    assert_eq!(a.len(), 12);
    assert_eq!(a.buffer(), DeviceBuffer { dims: Geometry::Two(3, 4) });
    assert_eq!(fill, Fill::Zeros(12));
}

#[test]
fn empty_matrices_are_allowed() {
    let a = matrix(0, 5);
    assert_eq!(a.len(), 0);
    assert_eq!(a.to_vec(Vec::new()), Ok(Vec::new()));
    let mut b = matrix(4, 0);
    let launch = b.t();
    assert_eq!(launch.result(), Shape { rows: 0, cols: 4 });
    assert_eq!(launch.global(), Geometry::Two(4, 0));
}

#[test]
fn from_vec_stages_the_values_unchanged() {
    let values = vec![1.5f32, -2.0, 0.0, 7.25, 9.0, 10.0];
    let (a, fill) = OpenCLArray::from_vec(backend(), 2, 3, values.clone());
    assert_eq!(a.shape(), Shape { rows: 2, cols: 3 });
    assert_eq!(a.buffer(), DeviceBuffer { dims: Geometry::Two(2, 3) });
    assert_eq!(fill, Fill::Values(values));
}

#[test]
fn fresh_destinations_are_built_from_zeros() {
    let a = matrix(10, 3);
    let b = matrix(3, 4);
    assert_eq!(
        a.sigmoid().allocation(),
        Some((Geometry::One(30), Fill::Zeros(30)))
    );
    assert_eq!(
        a.dot(&b).unwrap().allocation(),
        Some((Geometry::Two(10, 4), Fill::Zeros(40)))
    );
    let mut a = matrix(10, 3);
    assert_eq!(a.t().allocation(), Some((Geometry::Two(3, 10), Fill::Zeros(30))));
    assert_eq!(a.square().allocation(), None);
    let mut c = matrix(10, 3);
    assert_eq!(a.sigmoid().onto(&mut c).unwrap().allocation(), None);
}

#[test]
fn square_plan() {
    let mut a = matrix(1, 20);
    let launch = a.square();
    check(
        &launch,
        Kernel::Square,
        vec![Arg::Operand(0)],
        Geometry::One(20),
        Shape { rows: 1, cols: 20 },
        Destination::Supplied,
    );
    assert_eq!(a.shape(), Shape { rows: 1, cols: 20 });
    assert_eq!(a.buffer(), DeviceBuffer { dims: Geometry::Two(1, 20) });
}

#[test]
fn elementwise_plans() {
    let a = matrix(10, 3);
    let b = matrix(10, 3);
    let cases = [
        (a.add(&b).unwrap(), Kernel::Add),
        (a.subtract(&b).unwrap(), Kernel::Subtract),
        (a.hadamard(&b).unwrap(), Kernel::Hadamard),
    ];
    for (launch, kernel) in cases {
        check(
            &launch,
            kernel,
            vec![Arg::Operand(0), Arg::Operand(1), Arg::Output],
            Geometry::One(30),
            Shape { rows: 10, cols: 3 },
            Destination::Fresh(Geometry::One(30)),
        );
    }
}

#[test]
fn scalar_multiply_plan() {
    let a = matrix(4, 5);
    let launch = a.scalar_multiply(0.5);
    check(
        &launch,
        Kernel::MultiplyByScalar,
        vec![Arg::Operand(0), Arg::Output, Arg::Scalar(0.5)],
        Geometry::One(20),
        Shape { rows: 4, cols: 5 },
        Destination::Fresh(Geometry::One(20)),
    );
}

#[test]
fn sigmoid_plans() {
    let a = matrix(8, 10);
    check(
        &a.sigmoid(),
        Kernel::Sigmoid,
        vec![Arg::Operand(0), Arg::Output],
        Geometry::One(80),
        Shape { rows: 8, cols: 10 },
        Destination::Fresh(Geometry::One(80)),
    );
    check(
        &a.sigmoid_prime(),
        Kernel::SigmoidPrime,
        vec![Arg::Operand(0), Arg::Output],
        Geometry::One(80),
        Shape { rows: 8, cols: 10 },
        Destination::Fresh(Geometry::One(80)),
    );
}

#[test]
fn transpose_plan() {
    let mut a = matrix(2, 3);
    let launch = a.t();
    check(
        &launch,
        Kernel::Transpose,
        vec![Arg::Operand(0), Arg::Output, Arg::Extent(2), Arg::Extent(3)],
        Geometry::Two(2, 3),
        Shape { rows: 3, cols: 2 },
        Destination::Fresh(Geometry::Two(3, 2)),
    );
    assert_eq!(a.shape(), Shape { rows: 2, cols: 3 });
}

#[test]
fn dot_plan() {
    let a = matrix(10000, 784);
    let b = matrix(784, 10);
    let launch = a.dot(&b).unwrap();
    check(
        &launch,
        Kernel::DotProduct,
        vec![
            Arg::Operand(0),
            Arg::Operand(1),
            Arg::Output,
            Arg::Extent(784),
            Arg::Extent(10),
        ],
        Geometry::Two(10000, 10),
        Shape { rows: 10000, cols: 10 },
        Destination::Fresh(Geometry::Two(10000, 10)),
    );
}

#[test]
fn dot_rejects_an_inner_dimension_mismatch() {
    let a = matrix(2, 3);
    let b = matrix(4, 5);
    assert_eq!(
        a.dot(&b).err(),
        Some(ShapeError::InnerDimension { left_cols: 3, right_rows: 4 })
    );
    // the outer extents do not have to agree
    assert!(b.dot(&matrix(5, 9)).is_ok());
}

#[test]
fn elementwise_rejects_each_kind_of_mismatch() {
    let a = matrix(10, 3);
    for (rows, cols) in [(10, 4), (9, 3), (3, 10), (30, 1)] {
        let b = matrix(rows, cols);
        let expected = ShapeError::OperandMismatch {
            left: Shape { rows: 10, cols: 3 },
            right: Shape { rows, cols },
        };
        assert_eq!(a.add(&b).err(), Some(expected));
        assert_eq!(a.subtract(&b).err(), Some(expected));
        assert_eq!(a.hadamard(&b).err(), Some(expected));
    }
}

#[test]
fn supplied_destination_replaces_the_fresh_buffer() {
    let a = matrix(10, 3);
    let b = matrix(10, 3);
    let mut c = matrix(10, 3);
    let launch = a.add(&b).unwrap().onto(&mut c).unwrap();
    check(
        &launch,
        Kernel::Add,
        vec![Arg::Operand(0), Arg::Operand(1), Arg::Output],
        Geometry::One(30),
        Shape { rows: 10, cols: 3 },
        Destination::Supplied,
    );
    assert_eq!(c.shape(), Shape { rows: 10, cols: 3 });
}

#[test]
fn supplied_destination_must_have_the_shape_of_the_result() {
    let a = matrix(2, 3);
    let b = matrix(3, 4);
    let mut wrong = matrix(3, 4);
    assert_eq!(
        a.dot(&b).unwrap().onto(&mut wrong).err(),
        Some(ShapeError::OperandMismatch {
            left: Shape { rows: 2, cols: 4 },
            right: Shape { rows: 3, cols: 4 },
        })
    );
    let mut right = matrix(2, 4);
    assert!(a.dot(&b).unwrap().onto(&mut right).is_ok());
    let mut a = matrix(2, 3);
    let mut flat = matrix(2, 3);
    assert_eq!(
        a.t().onto(&mut flat).err(),
        Some(ShapeError::OperandMismatch {
            left: Shape { rows: 3, cols: 2 },
            right: Shape { rows: 2, cols: 3 },
        })
    );
}

#[test]
fn download_checks_the_length_of_what_was_read() {
    assert_eq!(matrix(2, 3).to_vec(vec![1.0; 6]), Ok(vec![1.0; 6]));
    assert_eq!(
        matrix(2, 3).to_vec(vec![1.0; 5]),
        Err(ShapeError::ReshapeLength { shape: Shape { rows: 2, cols: 3 }, len: 5 })
    );
    assert_eq!(
        matrix(2, 3).to_vec(vec![1.0; 7]),
        Err(ShapeError::ReshapeLength { shape: Shape { rows: 2, cols: 3 }, len: 7 })
    );
    let array = matrix(2, 3).to_array(vec![1., 2., 3., 4., 5., 6.]).unwrap();
    assert_eq!((array.nrows(), array.ncols()), (2, 3));
    assert_eq!(array.get(1, 0), 4.);
    assert_eq!(
        matrix(2, 3).to_array(vec![1.0; 4]).err(),
        Some(ShapeError::ReshapeLength { shape: Shape { rows: 2, cols: 3 }, len: 4 })
    );
}

#[test]
fn round_trip_is_exact() {
    let values: Vec<f32> = (0..12).map(|k| (k as f32) * 0.1 - 0.55).collect();
    let (a, fill) = OpenCLArray::from_vec(backend(), 3, 4, values.clone());
    let staged = match fill {
        Fill::Values(staged) => staged,
        Fill::Zeros(_) => panic!("values were given"),
    };
    let back = a.to_vec(staged).unwrap();
    assert_eq!(back.len(), values.len());
    for (x, y) in back.iter().zip(values.iter()) {
        assert_eq!(x.to_bits(), y.to_bits());
    }
}
