// The steps of a dispatch and the reports of the driver.

use carya::dispatch::{Dispatch, Outcome, Stage};
use carya::error::{DispatchError, Failure};
use carya::kernel::Kernel;
use carya::launch::Launch;
use carya::opencl::{CLBackEnd, DeviceBuffer, OpenCLArray};
use carya::shape::{Geometry, Shape};

fn matrix(rows: usize, cols: usize) -> OpenCLArray<f32> {
    OpenCLArray::new(CLBackEnd { device: 2 }, rows, cols).0
}

fn fresh() -> Launch<f32> {
    matrix(2, 3).dot(&matrix(3, 4)).unwrap()
}

fn supplied() -> Launch<f32> {
    let mut c = matrix(2, 4);
    fresh().onto(&mut c).unwrap()
}

fn stages(launch: Launch<f32>, reports: &[bool]) -> (Vec<Stage>, Dispatch<f32>) {
    let mut dispatch = Dispatch::begin(launch);
    let mut seen = vec![dispatch.stage()];
    for ok in reports {
        dispatch = dispatch.advance(*ok);
        seen.push(dispatch.stage());
    }
    (seen, dispatch)
}

#[test]
fn fresh_destination_goes_through_four_steps() {
    let (seen, dispatch) = stages(fresh(), &[true, true, true, true]);
    assert_eq!(
        seen,
        vec![Stage::Allocate, Stage::Bind, Stage::Enqueue, Stage::Wait, Stage::Done]
    );
    match dispatch.outcome() {
        Outcome::Fresh(c) => {
            assert_eq!(c.shape(), Shape { rows: 2, cols: 4 });
            assert_eq!(c.buffer(), DeviceBuffer { dims: Geometry::Two(2, 4) });
            assert_eq!(c.backend(), CLBackEnd { device: 2 });
            assert_eq!(c.len(), 8);
        }
        other => panic!("unexpected outcome {:?}", other),
    }
}

#[test]
fn supplied_destination_is_neither_built_nor_waited_for() {
    let (seen, dispatch) = stages(supplied(), &[true, true]);
    assert_eq!(seen, vec![Stage::Bind, Stage::Enqueue, Stage::Done]);
    assert!(matches!(dispatch.outcome(), Outcome::Written));
}

#[test]
fn in_place_square_is_neither_built_nor_waited_for() {
    let mut a = matrix(1, 10);
    let (seen, dispatch) = stages(a.square(), &[true, true]);
    assert_eq!(seen, vec![Stage::Bind, Stage::Enqueue, Stage::Done]);
    assert!(matches!(dispatch.outcome(), Outcome::Written));
}

#[test]
fn each_step_has_its_own_failure() {
    let cases = [
        (vec![false], Failure::Allocation),
        (vec![true, false], Failure::Binding),
        (vec![true, true, false], Failure::Enqueue),
        (vec![true, true, true, false], Failure::Wait),
    ];
    for (reports, failure) in cases {
        let (seen, dispatch) = stages(fresh(), &reports);
        assert_eq!(seen.last(), Some(&Stage::Failed(failure)));
        match dispatch.outcome() {
            Outcome::Failed(e) => {
                assert_eq!(e, DispatchError { kernel: Kernel::DotProduct, failure })
            }
            other => panic!("unexpected outcome {:?}", other),
        }
    }
    let (seen, _) = stages(supplied(), &[false]);
    assert_eq!(seen.last(), Some(&Stage::Failed(Failure::Binding)));
    let (seen, _) = stages(supplied(), &[true, false]);
    assert_eq!(seen.last(), Some(&Stage::Failed(Failure::Enqueue)));
}

#[test]
fn a_refused_step_is_never_tried_again() {
    let (seen, dispatch) = stages(fresh(), &[true, false, true, true, true, true]);
    assert_eq!(
        seen,
        vec![
            Stage::Allocate,
            Stage::Bind,
            Stage::Failed(Failure::Binding),
            Stage::Failed(Failure::Binding),
            Stage::Failed(Failure::Binding),
            Stage::Failed(Failure::Binding),
            Stage::Failed(Failure::Binding),
        ]
    );
    assert!(matches!(dispatch.outcome(), Outcome::Failed(_)));
}

#[test]
fn a_completed_dispatch_stays_done() {
    let (seen, _) = stages(supplied(), &[true, true, false, true]);
    assert_eq!(
        seen,
        vec![Stage::Bind, Stage::Enqueue, Stage::Done, Stage::Done, Stage::Done]
    );
}

#[test]
fn a_dispatch_with_steps_left_is_handed_back() {
    let (_, dispatch) = stages(fresh(), &[true, true]);
    match dispatch.outcome() {
        Outcome::Pending(d) => {
            assert_eq!(d.stage(), Stage::Enqueue);
            assert_eq!(d.launch().kernel(), Kernel::DotProduct);
            assert_eq!(d.launch().global(), Geometry::Two(2, 4));
        }
        other => panic!("unexpected outcome {:?}", other),
    }
}

#[test]
fn the_dispatch_keeps_its_launch() {
    let (_, dispatch) = stages(fresh(), &[true, true, true]);
    let launch = dispatch.launch();
    assert_eq!(launch.kernel(), Kernel::DotProduct);
    assert_eq!(launch.result(), Shape { rows: 2, cols: 4 });
    assert_eq!(launch.args().len(), 5);
}
