//! Those who do the steps of real-to-complex plans in place.

use vstd::prelude::*;

use crate::carrier::carries;
use crate::carrier::Load;
use crate::convert::complex_handed_over;
use crate::convert::convert_complex_to_real;
use crate::convert::convert_real_to_complex;
use crate::convert::real_handed_over;
use crate::crew::Crew;
use crate::error::FftError;
use crate::error::LocalC2cError;
use crate::error::LocalR2cError;
use crate::error::R2cError;
use crate::half_carrier::lent_carried;
use crate::half_carrier::lent_carry;
use crate::half_carrier::misplaced;
use crate::half_carrier::shared_carried;
use crate::half_carrier::shared_carry;
use crate::half_carrier::SharedLoad;
use crate::handoff::Boundary;
use crate::handoff::HalfComplexStorage;
use crate::handoff::LineBuffers;
use crate::handoff::SharedStorage;
use crate::inspect::Inspector;
use crate::kernels::ComplexStation;
use crate::layout::Direction;
use crate::lines::all_kernels;
use crate::lines::line_kernel;
use crate::perform::unknown_step;
use crate::r2c::len_of;
use crate::r2c::R2cInPlaceArray;
use crate::r2c::R2cInPlaceWorkspace;
use crate::r2c::TransformPlanCore;
use crate::scalar::Complex;
use crate::scalar::FftReal;
use crate::schedule::Slot;
use crate::schedule::Step;
use crate::schedule::Work;
use crate::shared::same_frame;
use crate::shared::shared_wf;
use crate::station::applied;
use crate::transition::Passage;
use crate::workspace::verdict_of;

verus! {

/// The array and the buffers of an in-place execution.
pub type R2cInPlaceTask<R, const N: usize, const M: usize> = (
    R2cInPlaceArray<R, N, M>,
    R2cInPlaceWorkspace<R, N, M>,
);

/// The allocation of an in-place execution and the buffers of its exchanges.
pub open spec fn shared_load<R: FftReal, const N: usize, const M: usize>(
    task: R2cInPlaceTask<R, N, M>,
) -> SharedLoad<R, N, M> {
    SharedLoad {
        shared: task.0.shared,
        real_buffers: task.1.real_transpose,
        buffers: task.1.transpose,
    }
}

/// What is wrong with where a forward execution has arrived, if anything is.
pub open spec fn forward_arrival_error<R, const N: usize, const M: usize>(
    core: TransformPlanCore<N, M>,
    shared: SharedStorage<R, N, M>,
) -> Option<FftError> {
    match shared.storage {
        Some(HalfComplexStorage::Complex(values)) => match values.spec_active_pencil() {
            Err(error) => Some(FftError::Array(error)),
            Ok(pencil) => if pencil.spec_same_layout(&core.stages@.last().output)
                && shared.real_pencils is Some && shared.complex_pencils is None {
                None
            } else {
                Some(FftError::PreparationFailed)
            },
        },
        _ => Some(FftError::StorageLayoutMismatch),
    }
}

/// What is wrong with where a reverse execution has arrived, if anything is.
pub open spec fn reverse_arrival_error<R, const N: usize, const M: usize>(
    core: TransformPlanCore<N, M>,
    shared: SharedStorage<R, N, M>,
) -> Option<FftError> {
    match shared.storage {
        Some(HalfComplexStorage::Real(values)) => match values.spec_active_pencil() {
            Err(error) => Some(FftError::Array(error)),
            Ok(pencil) => if pencil.spec_same_layout(&core.stages@[0].input)
                && shared.real_pencils is None && shared.complex_pencils is Some {
                None
            } else {
                Some(FftError::PreparationFailed)
            },
        },
        _ => Some(FftError::StorageLayoutMismatch),
    }
}

fn check_forward_arrival<R, const N: usize, const M: usize>(
    core: &TransformPlanCore<N, M>,
    shared: &SharedStorage<R, N, M>,
) -> (outcome: Result<(), R2cError>)
    requires
        core.wf(),
    ensures
        outcome == verdict_of::<R2cError>(forward_arrival_error(*core, *shared)),
{
    match &shared.storage {
        Some(HalfComplexStorage::Complex(values)) => match values.active_pencil() {
            Err(error) => Err(R2cError::Fft(FftError::Array(error))),
            Ok(pencil) => {
                if pencil.same_layout(&core.stages[core.stages.len() - 1].output)
                    && shared.real_pencils.is_some() && shared.complex_pencils.is_none() {
                    Ok(())
                } else {
                    Err(R2cError::Fft(FftError::PreparationFailed))
                }
            },
        },
        _ => Err(R2cError::Fft(FftError::StorageLayoutMismatch)),
    }
}

fn check_reverse_arrival<R, const N: usize, const M: usize>(
    core: &TransformPlanCore<N, M>,
    shared: &SharedStorage<R, N, M>,
) -> (outcome: Result<(), R2cError>)
    requires
        core.wf(),
    ensures
        outcome == verdict_of::<R2cError>(reverse_arrival_error(*core, *shared)),
{
    match &shared.storage {
        Some(HalfComplexStorage::Real(values)) => match values.active_pencil() {
            Err(error) => Err(R2cError::Fft(FftError::Array(error))),
            Ok(pencil) => {
                if pencil.same_layout(&core.stages[0].input) && shared.real_pencils.is_none()
                    && shared.complex_pencils.is_some() {
                    Ok(())
                } else {
                    Err(R2cError::Fft(FftError::PreparationFailed))
                }
            },
        },
        _ => Err(R2cError::Fft(FftError::StorageLayoutMismatch)),
    }
}

/// The buffers that hold one boundary line.
pub open spec fn shared_line_buffers<R: FftReal, const N: usize, const M: usize>(
    workspace: R2cInPlaceWorkspace<R, N, M>,
) -> LineBuffers {
    LineBuffers {
        real_source_line: len_of(workspace.real_source_line),
        real_line: workspace.real_line@.len() as usize,
        complex_source_line: workspace.complex_source_line@.len() as usize,
        complex_line: workspace.complex_line@.len() as usize,
    }
}

/// Those who do the steps of a forward in-place execution.
pub struct R2cInPlaceForwardCrew<'a, FX, FC, XR, XC, const N: usize, const M: usize> {
    /// The plan.
    pub core: &'a TransformPlanCore<N, M>,
    /// The kernel of the boundary.
    pub crossing: &'a FX,
    /// The kernel of each complex stage.
    pub kernels: &'a Vec<FC>,
    /// Exchanges real values.
    pub real_exchange: &'a XR,
    /// Exchanges complex values.
    pub exchange: &'a XC,
}

impl<'a, R: FftReal, FX: Fn(&[R], usize) -> Result<Vec<Complex<R>>, LocalR2cError>, FC: Fn(&[Complex<R>], usize) -> Result<Vec<Complex<R>>, LocalC2cError>, XR: Fn(usize, Passage, Load<R, N, M>) -> (Load<R, N, M>, Result<(), FftError>), XC: Fn(usize, Passage, Load<Complex<R>, N, M>) -> (Load<Complex<R>, N, M>, Result<(), FftError>), const N: usize, const M: usize> Crew<R2cInPlaceTask<R, N, M>, R2cError> for R2cInPlaceForwardCrew<'a, FX, FC, XR, XC, N, M> {
    open spec fn able(&self) -> bool {
        &&& self.core.wf()
        &&& self.kernels@.len() == self.core.stages@.len()
        &&& all_kernels::<Complex<R>, Complex<R>, LocalC2cError, FC>(self.kernels@)
        &&& line_kernel::<R, Complex<R>, LocalR2cError, FX>(*self.crossing)
        &&& carries::<R, XR, N, M>(*self.real_exchange)
        &&& carries::<Complex<R>, XC, N, M>(*self.exchange)
    }

    open spec fn fit(&self, state: R2cInPlaceTask<R, N, M>) -> bool {
        shared_wf(state.0.shared)
    }

    open spec fn does(
        &self,
        step: Step,
        before: R2cInPlaceTask<R, N, M>,
        after: R2cInPlaceTask<R, N, M>,
        outcome: Result<(), R2cError>,
    ) -> bool {
        &&& after.0.core == before.0.core
        &&& after.0.state == before.0.state
        &&& match (step.work, step.from, step.to) {
            (Work::Exchange(index), _, _) => {
                &&& after.1 == (R2cInPlaceWorkspace {
                    transpose: after.1.transpose,
                    real_transpose: after.1.real_transpose,
                    ..before.1
                })
                &&& lent_carried::<R, R2cError, XR, XC, N, M>(
                    *self.real_exchange,
                    *self.exchange,
                    self.core.transitions@,
                    Direction::Forward,
                    index,
                    step.from,
                    shared_load(before),
                    shared_load(after),
                    outcome,
                )
            },
            (Work::Arrive, _, _) => {
                &&& after == before
                &&& outcome == verdict_of::<R2cError>(
                    forward_arrival_error(*self.core, before.0.shared),
                )
            },
            (Work::Kernel(_), Slot::Real, Slot::Complex) => {
                &&& after.1 == before.1
                &&& real_handed_over::<R, FX, N, M>(
                    *self.crossing,
                    self.core.spec_boundary(),
                    shared_line_buffers(before.1),
                    before.0.shared,
                    after.0.shared,
                    outcome,
                )
            },
            (Work::Kernel(stage), Slot::Complex, Slot::Complex) => if stage
                >= self.core.stages@.len() {
                after == before && unknown_step(outcome)
            } else {
                &&& after.1 == (R2cInPlaceWorkspace {
                    complex_strided_line: after.1.complex_strided_line,
                    ..before.1
                })
                &&& after.1.complex_strided_line@.len()
                    == before.1.complex_strided_line@.len()
                &&& same_frame(before.0.shared, after.0.shared)
                &&& match before.0.shared.storage {
                    Some(HalfComplexStorage::Complex(values)) => after.0.shared.storage matches Some(
                        HalfComplexStorage::Complex(worked),
                    ) && applied::<Complex<R>, R2cError, ComplexStation<FC, N, M>, N, M>(
                        self.core.spec_tail_station(Direction::Forward, step, &self.kernels@[stage as int]),
                        values,
                        worked,
                        before.1.complex_strided_line@.len() as usize,
                        outcome,
                    ),
                    _ => after.0.shared == before.0.shared && misplaced(outcome),
                }
            },
            _ => after == before && unknown_step(outcome),
        }
    }

    fn work(&self, step: &Step, state: R2cInPlaceTask<R, N, M>) -> (result: (
        R2cInPlaceTask<R, N, M>,
        Result<(), R2cError>,
    )) {
        let (mut array, mut workspace): R2cInPlaceTask<R, N, M> = state;
        match (step.work, step.from, step.to) {
            (Work::Exchange(index), _, _) => {
                let load: SharedLoad<R, N, M> = SharedLoad {
                    shared: array.shared,
                    real_buffers: workspace.real_transpose,
                    buffers: workspace.transpose,
                };
                let (left, outcome): (SharedLoad<R, N, M>, Result<(), R2cError>) = lent_carry(
                    self.real_exchange,
                    self.exchange,
                    &self.core.transitions,
                    Direction::Forward,
                    index,
                    step.from,
                    load,
                );
                array.shared = left.shared;
                workspace.real_transpose = left.real_buffers;
                workspace.transpose = left.buffers;
                ((array, workspace), outcome)
            },
            (Work::Arrive, _, _) => {
                let outcome: Result<(), R2cError> = check_forward_arrival(self.core, &array.shared);
                ((array, workspace), outcome)
            },
            (Work::Kernel(_), Slot::Real, Slot::Complex) => {
                let lines: LineBuffers = workspace.line_buffers();
                let boundary: Boundary<N, M> = self.core.boundary_lines();
                let outcome: Result<(), R2cError> = convert_real_to_complex(
                    self.crossing,
                    &boundary,
                    &mut array.shared,
                    &lines,
                );
                ((array, workspace), outcome)
            },
            (Work::Kernel(stage), Slot::Complex, Slot::Complex) => {
                if stage >= self.core.stages.len() {
                    return (
                        (array, workspace),
                        Err(R2cError::Fft(FftError::PreparationFailed)),
                    );
                }
                let outcome: Result<(), R2cError> = self.core.perform_complex_in_place(
                    Direction::Forward,
                    step,
                    &self.kernels[stage],
                    &mut array,
                    &mut workspace.complex_strided_line,
                );
                ((array, workspace), outcome)
            },
            _ => ((array, workspace), Err(R2cError::Fft(FftError::PreparationFailed))),
        }
    }
}

/// Those who do the steps of a reverse in-place execution.
pub struct R2cInPlaceReverseCrew<'a, FX, FC, XR, XC, V, const N: usize, const M: usize> {
    /// The plan.
    pub core: &'a TransformPlanCore<N, M>,
    /// Which way the execution goes.
    pub direction: Direction,
    /// The kernel of the boundary.
    pub crossing: &'a FX,
    /// The kernel of each complex stage.
    pub kernels: &'a Vec<FC>,
    /// Exchanges real values.
    pub real_exchange: &'a XR,
    /// Exchanges complex values.
    pub exchange: &'a XC,
    /// Checks and clears the endpoint planes.
    pub inspector: &'a V,
}

impl<'a, R: FftReal, FX: Fn(&[Complex<R>], usize) -> Result<Vec<R>, LocalR2cError>, FC: Fn(&[Complex<R>], usize) -> Result<Vec<Complex<R>>, LocalC2cError>, XR: Fn(usize, Passage, Load<R, N, M>) -> (Load<R, N, M>, Result<(), FftError>), XC: Fn(usize, Passage, Load<Complex<R>, N, M>) -> (Load<Complex<R>, N, M>, Result<(), FftError>), V: Inspector<R, R2cError, N, M>, const N: usize, const M: usize> Crew<R2cInPlaceTask<R, N, M>, R2cError> for R2cInPlaceReverseCrew<'a, FX, FC, XR, XC, V, N, M> {
    open spec fn able(&self) -> bool {
        &&& self.core.wf()
        &&& self.kernels@.len() == self.core.stages@.len()
        &&& all_kernels::<Complex<R>, Complex<R>, LocalC2cError, FC>(self.kernels@)
        &&& line_kernel::<Complex<R>, R, LocalR2cError, FX>(*self.crossing)
        &&& carries::<R, XR, N, M>(*self.real_exchange)
        &&& carries::<Complex<R>, XC, N, M>(*self.exchange)
        &&& self.inspector.able()
    }

    open spec fn fit(&self, state: R2cInPlaceTask<R, N, M>) -> bool {
        &&& shared_wf(state.0.shared)
        &&& state.0.shared.storage matches Some(HalfComplexStorage::Complex(values)) ==> forall|i: int|
            0 <= i < values.pencils@.len() ==> self.inspector.admits(#[trigger] values.pencils@[i])
    }

    open spec fn does(
        &self,
        step: Step,
        before: R2cInPlaceTask<R, N, M>,
        after: R2cInPlaceTask<R, N, M>,
        outcome: Result<(), R2cError>,
    ) -> bool {
        &&& after.0.core == before.0.core
        &&& after.0.state == before.0.state
        &&& match (step.work, step.from, step.to) {
            (Work::Exchange(index), _, _) => {
                &&& after.1 == (R2cInPlaceWorkspace {
                    transpose: after.1.transpose,
                    real_transpose: after.1.real_transpose,
                    ..before.1
                })
                &&& shared_carried::<R, R2cError, XR, XC, N, M>(
                    *self.real_exchange,
                    *self.exchange,
                    self.core.transitions@,
                    self.direction,
                    index,
                    step.from,
                    shared_load(before),
                    shared_load(after),
                    outcome,
                )
            },
            (Work::Validate, _, _) => {
                &&& after == before
                &&& match before.0.shared.storage {
                    Some(HalfComplexStorage::Complex(values)) => self.inspector.finds(
                        values,
                        outcome,
                    ),
                    _ => misplaced(outcome),
                }
            },
            (Work::Clear, _, _) => {
                &&& after.1 == before.1
                &&& same_frame(before.0.shared, after.0.shared)
                &&& match before.0.shared.storage {
                    Some(HalfComplexStorage::Complex(values)) => after.0.shared.storage matches Some(
                        HalfComplexStorage::Complex(cleared),
                    ) && self.inspector.clears(values, cleared, outcome),
                    _ => after == before && misplaced(outcome),
                }
            },
            (Work::Arrive, _, _) => {
                &&& after == before
                &&& outcome == verdict_of::<R2cError>(
                    reverse_arrival_error(*self.core, before.0.shared),
                )
            },
            (Work::Kernel(_), Slot::Complex, Slot::Real) => {
                &&& after.1 == before.1
                &&& complex_handed_over::<R, FX, N, M>(
                    *self.crossing,
                    self.core.spec_boundary(),
                    shared_line_buffers(before.1),
                    before.0.shared,
                    after.0.shared,
                    outcome,
                )
            },
            (Work::Kernel(stage), Slot::Complex, Slot::Complex) => if stage
                >= self.core.stages@.len() {
                after == before && unknown_step(outcome)
            } else {
                &&& after.1 == (R2cInPlaceWorkspace {
                    complex_strided_line: after.1.complex_strided_line,
                    ..before.1
                })
                &&& after.1.complex_strided_line@.len()
                    == before.1.complex_strided_line@.len()
                &&& same_frame(before.0.shared, after.0.shared)
                &&& match before.0.shared.storage {
                    Some(HalfComplexStorage::Complex(values)) => after.0.shared.storage matches Some(
                        HalfComplexStorage::Complex(worked),
                    ) && applied::<Complex<R>, R2cError, ComplexStation<FC, N, M>, N, M>(
                        self.core.spec_tail_station(self.direction, step, &self.kernels@[stage as int]),
                        values,
                        worked,
                        before.1.complex_strided_line@.len() as usize,
                        outcome,
                    ),
                    _ => after.0.shared == before.0.shared && misplaced(outcome),
                }
            },
            _ => after == before && unknown_step(outcome),
        }
    }

    fn work(&self, step: &Step, state: R2cInPlaceTask<R, N, M>) -> (result: (
        R2cInPlaceTask<R, N, M>,
        Result<(), R2cError>,
    )) {
        let (mut array, mut workspace): R2cInPlaceTask<R, N, M> = state;
        match (step.work, step.from, step.to) {
            (Work::Exchange(index), _, _) => {
                let load: SharedLoad<R, N, M> = SharedLoad {
                    shared: array.shared,
                    real_buffers: workspace.real_transpose,
                    buffers: workspace.transpose,
                };
                let (left, outcome): (SharedLoad<R, N, M>, Result<(), R2cError>) = shared_carry(
                    self.real_exchange,
                    self.exchange,
                    &self.core.transitions,
                    self.direction,
                    index,
                    step.from,
                    load,
                );
                array.shared = left.shared;
                workspace.real_transpose = left.real_buffers;
                workspace.transpose = left.buffers;
                ((array, workspace), outcome)
            },
            (Work::Validate, _, _) => {
                let outcome: Result<(), R2cError> = match &array.shared.storage {
                    Some(HalfComplexStorage::Complex(values)) => self.inspector.inspect(values),
                    _ => Err(R2cError::Fft(FftError::StorageLayoutMismatch)),
                };
                ((array, workspace), outcome)
            },
            (Work::Clear, _, _) => {
                let outcome: Result<(), R2cError> = match &mut array.shared.storage {
                    Some(HalfComplexStorage::Complex(values)) => self.inspector.clear(values),
                    _ => Err(R2cError::Fft(FftError::StorageLayoutMismatch)),
                };
                ((array, workspace), outcome)
            },
            (Work::Arrive, _, _) => {
                let outcome: Result<(), R2cError> = check_reverse_arrival(self.core, &array.shared);
                ((array, workspace), outcome)
            },
            (Work::Kernel(_), Slot::Complex, Slot::Real) => {
                let lines: LineBuffers = workspace.line_buffers();
                let boundary: Boundary<N, M> = self.core.boundary_lines();
                let outcome: Result<(), R2cError> = convert_complex_to_real(
                    self.crossing,
                    &boundary,
                    &mut array.shared,
                    &lines,
                );
                ((array, workspace), outcome)
            },
            (Work::Kernel(stage), Slot::Complex, Slot::Complex) => {
                if stage >= self.core.stages.len() {
                    return (
                        (array, workspace),
                        Err(R2cError::Fft(FftError::PreparationFailed)),
                    );
                }
                let outcome: Result<(), R2cError> = self.core.perform_complex_in_place(
                    self.direction,
                    step,
                    &self.kernels[stage],
                    &mut array,
                    &mut workspace.complex_strided_line,
                );
                ((array, workspace), outcome)
            },
            _ => ((array, workspace), Err(R2cError::Fft(FftError::PreparationFailed))),
        }
    }
}

} // verus!
