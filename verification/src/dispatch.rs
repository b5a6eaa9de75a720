//! The steps of one dispatch, and what follows from each report of the
//! driver.
//!
//! A launch goes through its steps in a fixed order.  The driver performs the
//! step that the dispatch is at and reports whether the device accepted it;
//! the dispatch moves on, or fails for good.

use vstd::prelude::*;

use crate::error::{DispatchError, Failure};
use crate::launch::{Destination, Launch, LaunchView};
use crate::opencl::{ArrayView, DeviceBuffer, OpenCLArray};

verus! {

/// Where a dispatch stands: the step that the driver has to perform next, or
/// how the dispatch ended.
#[derive(Clone, Copy, Debug, PartialEq, Eq, Structural)]
pub enum Stage {
    /// Build the zero-filled destination buffer.
    Allocate,
    /// Hand the arguments to the kernel.
    Bind,
    /// Queue the launch with its global work size.
    Enqueue,
    /// Block until the queue has drained.
    Wait,
    /// The launch went through.
    Done,
    /// A step was refused; the dispatch is over.
    Failed(Failure),
}

impl Stage {
    /// Whether the dispatch is over.
    pub open spec fn terminal(self) -> bool {
        self is Done || self is Failed
    }

    /// The stage that follows on a report of the driver.  A refused step
    /// ends the dispatch with the failure of that step.  A launch into a
    /// fresh buffer blocks until the device is done; a launch into a
    /// supplied buffer is over once it is queued.  A dispatch that is over
    /// stays as it is.
    pub open spec fn after(self, destination: Destination, ok: bool) -> Stage {
        match self {
            Stage::Allocate => if ok {
                Stage::Bind
            } else {
                Stage::Failed(Failure::Allocation)
            },
            Stage::Bind => if ok {
                Stage::Enqueue
            } else {
                Stage::Failed(Failure::Binding)
            },
            Stage::Enqueue => if !ok {
                Stage::Failed(Failure::Enqueue)
            } else if destination is Fresh {
                Stage::Wait
            } else {
                Stage::Done
            },
            Stage::Wait => if ok {
                Stage::Done
            } else {
                Stage::Failed(Failure::Wait)
            },
            Stage::Done => Stage::Done,
            Stage::Failed(f) => Stage::Failed(f),
        }
    }
}

/// The steps of a dispatch, in order: a fresh destination is built first and
/// waited for last; a supplied one needs neither.
pub open spec fn steps(destination: Destination) -> Seq<Stage> {
    match destination {
        Destination::Fresh(_) => seq![Stage::Allocate, Stage::Bind, Stage::Enqueue, Stage::Wait],
        Destination::Supplied => seq![Stage::Bind, Stage::Enqueue],
    }
}

/// The stage of a dispatch after `n` steps that all went through.
pub open spec fn stage_at(destination: Destination, n: int) -> Stage {
    if 0 <= n < steps(destination).len() {
        steps(destination)[n]
    } else {
        Stage::Done
    }
}

/// The stage that a dispatch reaches from `stage` on a sequence of reports.
pub open spec fn run(stage: Stage, destination: Destination, reports: Seq<bool>) -> Stage
    decreases reports.len(),
{
    if reports.len() == 0 {
        stage
    } else {
        run(stage.after(destination, reports[0]), destination, reports.drop_first())
    }
}

/// The mathematical content of a [`Dispatch`].
pub struct DispatchView<T> {
    pub launch: LaunchView<T>,
    pub stage: Stage,
}

/// A launch on its way through the device.
#[derive(Debug)]
pub struct Dispatch<T> {
    launch: Launch<T>,
    stage: Stage,
}

/// How a dispatch stands when the driver asks for its result.
#[derive(Debug)]
pub enum Outcome<T> {
    /// Steps are left; here is the dispatch back.
    Pending(Dispatch<T>),
    /// The launch went through and left a new matrix in the buffer that the
    /// driver built for it.
    Fresh(OpenCLArray<T>),
    /// The launch is queued and writes into the buffer that the caller
    /// supplied.
    Written,
    /// The device refused a step.
    Failed(DispatchError),
}

impl<T> View for Dispatch<T> {
    type V = DispatchView<T>;

    closed spec fn view(&self) -> DispatchView<T> {
        DispatchView { launch: self.launch@, stage: self.stage }
    }
}

impl<T> Dispatch<T> {
    /// Starts the dispatch of a launch at its first step.
    pub fn begin(launch: Launch<T>) -> (d: Dispatch<T>)
        ensures
            d@.launch == launch@,
            d@.stage == stage_at(launch@.destination, 0),
    {
        let stage = match launch.destination() {
            Destination::Fresh(_) => Stage::Allocate,
            Destination::Supplied => Stage::Bind,
        };
        Dispatch { launch, stage }
    }

    /// The step that the driver has to perform next, or how the dispatch
    /// ended.
    pub fn stage(&self) -> (s: Stage)
        ensures
            s == self@.stage,
    {
        self.stage
    }

    /// The launch that is being dispatched.
    pub fn launch(&self) -> (l: &Launch<T>)
        ensures
            l@ == self@.launch,
    {
        &self.launch
    }

    /// Takes the report of the driver on the step that the dispatch is at:
    /// `ok` says whether the device accepted it.
    pub fn advance(self, ok: bool) -> (d: Dispatch<T>)
        ensures
            d@.launch == self@.launch,
            d@.stage == self@.stage.after(self@.launch.destination, ok),
    {
        let fresh = match self.launch.destination() {
            Destination::Fresh(_) => true,
            Destination::Supplied => false,
        };
        let stage = match self.stage {
            Stage::Done => Stage::Done,
            Stage::Failed(f) => Stage::Failed(f),
            Stage::Allocate => if ok {
                Stage::Bind
            } else {
                Stage::Failed(Failure::Allocation)
            },
            Stage::Bind => if ok {
                Stage::Enqueue
            } else {
                Stage::Failed(Failure::Binding)
            },
            Stage::Enqueue => if !ok {
                Stage::Failed(Failure::Enqueue)
            } else if fresh {
                Stage::Wait
            } else {
                Stage::Done
            },
            Stage::Wait => if ok {
                Stage::Done
            } else {
                Stage::Failed(Failure::Wait)
            },
        };
        Dispatch { launch: self.launch, stage }
    }

    /// Ends the dispatch.  A launch that went through into a fresh buffer
    /// yields the handle of the new matrix, with the extents of the result
    /// and a buffer of the dimensions that were asked for; one into a
    /// supplied buffer yields nothing new.  A refused step yields the error,
    /// which names the kernel and the step.  A dispatch with steps left is
    /// handed back.
    pub fn outcome(self) -> (o: Outcome<T>)
        ensures
            match self@.stage {
                Stage::Done => match self@.launch.destination {
                    Destination::Fresh(dims) => o matches Outcome::Fresh(a) && a@ == (ArrayView {
                        backend: self@.launch.backend,
                        buffer: DeviceBuffer { dims },
                        shape: self@.launch.result,
                    }) && a@.wf(),
                    Destination::Supplied => o is Written,
                },
                Stage::Failed(failure) => o matches Outcome::Failed(e) && e == (DispatchError {
                    kernel: self@.launch.kernel,
                    failure,
                }),
                _ => o matches Outcome::Pending(d) && d@ == self@,
            },
    {
        match self.stage {
            Stage::Done => match self.launch.destination() {
                Destination::Fresh(dims) => {
                    let shape = self.launch.result();
                    Outcome::Fresh(OpenCLArray::adopt(self.launch.backend(), dims, shape))
                },
                Destination::Supplied => Outcome::Written,
            },
            Stage::Failed(failure) => Outcome::Failed(
                DispatchError { kernel: self.launch.kernel(), failure },
            ),
            _ => Outcome::Pending(self),
        }
    }
}

/// A dispatch that is over ignores every further report: a refused step is
/// never tried again, and a completed launch is never run twice.
pub proof fn lemma_terminal_absorbs(stage: Stage, destination: Destination, reports: Seq<bool>)
    requires
        stage.terminal(),
    ensures
        run(stage, destination, reports) == stage,
    decreases reports.len(),
{
    if reports.len() > 0 {
        lemma_terminal_absorbs(stage, destination, reports.drop_first());
    }
}

/// Reports taken one after another have the effect of the whole sequence.
pub proof fn lemma_run_split(
    stage: Stage,
    destination: Destination,
    head: Seq<bool>,
    tail: Seq<bool>,
)
    ensures
        run(stage, destination, head + tail) == run(
            run(stage, destination, head),
            destination,
            tail,
        ),
    decreases head.len(),
{
    if head.len() > 0 {
        assert((head + tail).drop_first() =~= head.drop_first() + tail);
        lemma_run_split(
            stage.after(destination, head[0]),
            destination,
            head.drop_first(),
            tail,
        );
    }
}

/// While every step goes through, the dispatch performs the steps of its
/// launch in order, each once, and is done after the last.
pub proof fn lemma_steps_in_order(destination: Destination, done: int, reports: Seq<bool>)
    requires
        0 <= done,
        forall|i: int| 0 <= i < reports.len() ==> reports[i],
    ensures
        run(stage_at(destination, done), destination, reports) == stage_at(
            destination,
            done + reports.len(),
        ),
    decreases reports.len(),
{
    if reports.len() > 0 {
        assert(stage_at(destination, done).after(destination, true) == stage_at(
            destination,
            done + 1,
        ));
        lemma_steps_in_order(destination, done + 1, reports.drop_first());
    }
}

/// The first refused step decides the dispatch: it fails with the failure of
/// that step, whatever is reported afterwards.
pub proof fn lemma_first_refusal(destination: Destination, reports: Seq<bool>, at: int)
    requires
        0 <= at < reports.len(),
        at < steps(destination).len(),
        !reports[at],
        forall|i: int| 0 <= i < at ==> reports[i],
    ensures
        run(stage_at(destination, 0), destination, reports) == steps(destination)[at].after(
            destination,
            false,
        ),
        run(stage_at(destination, 0), destination, reports) is Failed,
{
    let head = reports.subrange(0, at);
    let rest = reports.subrange(at, reports.len() as int);
    assert(reports =~= head + rest);
    lemma_run_split(stage_at(destination, 0), destination, head, rest);
    lemma_steps_in_order(destination, 0, head);
    let failed = stage_at(destination, at).after(destination, false);
    lemma_terminal_absorbs(failed, destination, rest.drop_first());
}

} // verus!
