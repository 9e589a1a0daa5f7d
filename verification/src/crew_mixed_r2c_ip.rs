//! Those who do the steps of mixed real-to-complex plans in place.

use vstd::prelude::*;

use crate::carrier::carries;
use crate::carrier::Load;
use crate::crew::Crew;
use crate::error::FftError;
use crate::error::MixedError;
use crate::half_carrier::misplaced;
use crate::half_carrier::shared_carried;
use crate::half_carrier::shared_carry;
use crate::half_carrier::SharedLoad;
use crate::handoff::Boundary;
use crate::handoff::HalfComplexStorage;
use crate::handoff::LineBuffers;
use crate::inspect::Inspector;
use crate::kernels::MixedComplexStation;
use crate::kernels::MixedRealStation;
use crate::layout::Direction;
use crate::lines::all_kernels;
use crate::lines::line_kernel;
use crate::mixed_convert::mixed_complex_handed_over;
use crate::mixed_convert::mixed_convert_complex_to_real;
use crate::mixed_convert::mixed_convert_real_to_complex;
use crate::mixed_convert::mixed_real_handed_over;
use crate::mixed_r2c::MixedBuffers;
use crate::mixed_r2c::MixedR2cCore;
use crate::mixed_r2c::MixedR2cInPlaceArray;
use crate::mixed_r2c::MixedR2cInPlaceWorkspace;
use crate::perform::unknown_step;
use crate::scalar::Complex;
use crate::scalar::FftReal;
use crate::schedule::Slot;
use crate::schedule::Step;
use crate::schedule::Work;
use crate::shared::same_frame;
use crate::shared::shared_wf;
use crate::stages::LocalError;
use crate::station::applied;
use crate::transition::Passage;

verus! {

/// The array and the buffers of an in-place execution.
pub type MixedR2cInPlaceTask<R, const N: usize, const M: usize> = (
    MixedR2cInPlaceArray<R, N, M>,
    MixedR2cInPlaceWorkspace<R, N, M>,
);

/// The allocation of an in-place execution and the buffers of its exchanges.
pub open spec fn mixed_shared_load<R: FftReal, const N: usize, const M: usize>(
    task: MixedR2cInPlaceTask<R, N, M>,
) -> SharedLoad<R, N, M> {
    SharedLoad {
        shared: task.0.shared,
        real_buffers: task.1.buffers.real_transpose,
        buffers: task.1.buffers.transpose,
    }
}

/// The buffers that hold one boundary line.
pub open spec fn mixed_line_buffers<R: FftReal>(buffers: MixedBuffers<R>) -> LineBuffers {
    LineBuffers {
        real_source_line: Some(buffers.real_source_line@.len() as usize),
        real_line: buffers.real_line@.len() as usize,
        complex_source_line: buffers.complex_source_line@.len() as usize,
        complex_line: buffers.complex_line@.len() as usize,
    }
}

fn count_line_buffers<R: FftReal>(buffers: &MixedBuffers<R>) -> (lines: LineBuffers)
    ensures
        lines == mixed_line_buffers(*buffers),
{
    LineBuffers {
        real_source_line: Some(buffers.real_source_line.len()),
        real_line: buffers.real_line.len(),
        complex_source_line: buffers.complex_source_line.len(),
        complex_line: buffers.complex_line.len(),
    }
}

/// Those who do the steps of a forward in-place execution.
pub struct MixedR2cInPlaceForwardCrew<'a, FR, FX, FC, XR, XC, const N: usize, const M: usize> {
    /// The plan.
    pub core: &'a MixedR2cCore<N, M>,
    /// The kernel of each real stage.
    pub prefixes: &'a Vec<FR>,
    /// The kernel of the boundary.
    pub crossing: &'a FX,
    /// The kernel of each complex stage.
    pub kernels: &'a Vec<FC>,
    /// Exchanges real values.
    pub real_exchange: &'a XR,
    /// Exchanges complex values.
    pub exchange: &'a XC,
}

impl<'a, R: FftReal, FR: Fn(&[R], usize) -> Result<Vec<R>, LocalError>, FX: Fn(&[R], usize) -> Result<Vec<Complex<R>>, LocalError>, FC: Fn(&[Complex<R>], usize) -> Result<Vec<Complex<R>>, LocalError>, XR: Fn(usize, Passage, Load<R, N, M>) -> (Load<R, N, M>, Result<(), FftError>), XC: Fn(usize, Passage, Load<Complex<R>, N, M>) -> (Load<Complex<R>, N, M>, Result<(), FftError>), const N: usize, const M: usize> Crew<MixedR2cInPlaceTask<R, N, M>, MixedError> for MixedR2cInPlaceForwardCrew<'a, FR, FX, FC, XR, XC, N, M> {
    open spec fn able(&self) -> bool {
        &&& self.core.wf()
        &&& self.prefixes@.len() == self.core.stages@.len()
        &&& all_kernels::<R, R, LocalError, FR>(self.prefixes@)
        &&& self.kernels@.len() == self.core.stages@.len()
        &&& all_kernels::<Complex<R>, Complex<R>, LocalError, FC>(self.kernels@)
        &&& line_kernel::<R, Complex<R>, LocalError, FX>(*self.crossing)
        &&& carries::<R, XR, N, M>(*self.real_exchange)
        &&& carries::<Complex<R>, XC, N, M>(*self.exchange)
    }

    open spec fn fit(&self, state: MixedR2cInPlaceTask<R, N, M>) -> bool {
        shared_wf(state.0.shared)
    }

    open spec fn does(
        &self,
        step: Step,
        before: MixedR2cInPlaceTask<R, N, M>,
        after: MixedR2cInPlaceTask<R, N, M>,
        outcome: Result<(), MixedError>,
    ) -> bool {
        &&& after.0.core == before.0.core
        &&& after.0.state == before.0.state
        &&& match (step.work, step.from, step.to) {
            (Work::Exchange(index), _, _) => {
                &&& after.1 == (MixedR2cInPlaceWorkspace {
                    buffers: MixedBuffers {
                        transpose: after.1.buffers.transpose,
                        real_transpose: after.1.buffers.real_transpose,
                        ..before.1.buffers
                    },
                    ..before.1
                })
                &&& shared_carried::<R, MixedError, XR, XC, N, M>(
                    *self.real_exchange,
                    *self.exchange,
                    self.core.transitions@,
                    Direction::Forward,
                    index,
                    step.from,
                    mixed_shared_load(before),
                    mixed_shared_load(after),
                    outcome,
                )
            },
            (Work::Kernel(_), Slot::Real, Slot::Complex) => {
                &&& after.1 == before.1
                &&& mixed_real_handed_over::<R, FX, N, M>(
                    *self.crossing,
                    self.core.spec_boundary(),
                    self.core.extra_shape,
                    mixed_line_buffers(before.1.buffers),
                    before.0.shared,
                    after.0.shared,
                    outcome,
                )
            },
            (Work::Kernel(stage), Slot::Complex, Slot::Complex) => if stage
                >= self.core.stages@.len() {
                after == before && unknown_step(outcome)
            } else {
                &&& after.1 == (MixedR2cInPlaceWorkspace {
                    buffers: MixedBuffers { complex_strided_line: after.1.buffers.complex_strided_line, ..before.1.buffers },
                    ..before.1
                })
                &&& after.1.buffers.complex_strided_line@.len()
                    == before.1.buffers.complex_strided_line@.len()
                &&& same_frame(before.0.shared, after.0.shared)
                &&& match before.0.shared.storage {
                    Some(HalfComplexStorage::Complex(values)) => after.0.shared.storage matches Some(
                        HalfComplexStorage::Complex(worked),
                    ) && applied::<Complex<R>, MixedError, MixedComplexStation<FC, N, M>, N, M>(
                        self.core.spec_tail_station(Direction::Forward, step, &self.kernels@[stage as int]),
                        values,
                        worked,
                        before.1.buffers.complex_strided_line@.len() as usize,
                        outcome,
                    ),
                    _ => after.0.shared == before.0.shared && misplaced(outcome),
                }
            },
            (Work::Kernel(stage), Slot::Real, Slot::Real) => if stage >= self.core.stages@.len() {
                after == before && unknown_step(outcome)
            } else {
                &&& after.1 == (MixedR2cInPlaceWorkspace {
                    buffers: MixedBuffers { real_strided_line: after.1.buffers.real_strided_line, ..before.1.buffers },
                    ..before.1
                })
                &&& after.1.buffers.real_strided_line@.len()
                    == before.1.buffers.real_strided_line@.len()
                &&& same_frame(before.0.shared, after.0.shared)
                &&& match before.0.shared.storage {
                    Some(HalfComplexStorage::Real(values)) => after.0.shared.storage matches Some(
                        HalfComplexStorage::Real(worked),
                    ) && applied::<R, MixedError, MixedRealStation<FR, N, M>, N, M>(
                        self.core.spec_prefix_station(
                            Direction::Forward,
                            step,
                            &self.prefixes@[stage as int],
                        ),
                        values,
                        worked,
                        before.1.buffers.real_strided_line@.len() as usize,
                        outcome,
                    ),
                    _ => after.0.shared == before.0.shared && misplaced(outcome),
                }
            },
            _ => after == before && unknown_step(outcome),
        }
    }

    fn work(&self, step: &Step, state: MixedR2cInPlaceTask<R, N, M>) -> (result: (
        MixedR2cInPlaceTask<R, N, M>,
        Result<(), MixedError>,
    )) {
        let (mut array, mut workspace): MixedR2cInPlaceTask<R, N, M> = state;
        match (step.work, step.from, step.to) {
            (Work::Exchange(index), _, _) => {
                let load: SharedLoad<R, N, M> = SharedLoad {
                    shared: array.shared,
                    real_buffers: workspace.buffers.real_transpose,
                    buffers: workspace.buffers.transpose,
                };
                let (left, outcome): (SharedLoad<R, N, M>, Result<(), MixedError>) = shared_carry(
                    self.real_exchange,
                    self.exchange,
                    &self.core.transitions,
                    Direction::Forward,
                    index,
                    step.from,
                    load,
                );
                array.shared = left.shared;
                workspace.buffers.real_transpose = left.real_buffers;
                workspace.buffers.transpose = left.buffers;
                ((array, workspace), outcome)
            },
            (Work::Kernel(_), Slot::Real, Slot::Complex) => {
                let lines: LineBuffers = count_line_buffers(&workspace.buffers);
                let boundary: Boundary<N, M> = self.core.boundary_lines();
                let outcome: Result<(), MixedError> = mixed_convert_real_to_complex(
                    self.crossing,
                    &boundary,
                    &self.core.extra_shape,
                    &mut array.shared,
                    &lines,
                );
                ((array, workspace), outcome)
            },
            (Work::Kernel(stage), Slot::Complex, Slot::Complex) => {
                if stage >= self.core.stages.len() {
                    return (
                        (array, workspace),
                        Err(MixedError::Fft(FftError::PreparationFailed)),
                    );
                }
                let outcome: Result<(), MixedError> = self.core.perform_complex_in_place(
                    Direction::Forward,
                    step,
                    &self.kernels[stage],
                    &mut array,
                    &mut workspace.buffers.complex_strided_line,
                );
                ((array, workspace), outcome)
            },
            (Work::Kernel(stage), Slot::Real, Slot::Real) => {
                if stage >= self.core.stages.len() {
                    return (
                        (array, workspace),
                        Err(MixedError::Fft(FftError::PreparationFailed)),
                    );
                }
                let outcome: Result<(), MixedError> = self.core.perform_real_in_place(
                    Direction::Forward,
                    step,
                    &self.prefixes[stage],
                    &mut array,
                    &mut workspace.buffers.real_strided_line,
                );
                ((array, workspace), outcome)
            },
            _ => ((array, workspace), Err(MixedError::Fft(FftError::PreparationFailed))),
        }
    }
}

/// Those who do the steps of a reverse in-place execution.
pub struct MixedR2cInPlaceReverseCrew<'a, FR, FX, FC, XR, XC, V, const N: usize, const M: usize> {
    /// The plan.
    pub core: &'a MixedR2cCore<N, M>,
    /// Which way the execution goes.
    pub direction: Direction,
    /// The kernel of each real stage.
    pub prefixes: &'a Vec<FR>,
    /// The kernel of the boundary.
    pub crossing: &'a FX,
    /// The kernel of each complex stage.
    pub kernels: &'a Vec<FC>,
    /// Exchanges real values.
    pub real_exchange: &'a XR,
    /// Exchanges complex values.
    pub exchange: &'a XC,
    /// Checks and clears the endpoint planes.
    pub inspector: &'a V,
}

impl<'a, R: FftReal, FR: Fn(&[R], usize) -> Result<Vec<R>, LocalError>, FX: Fn(&[Complex<R>], usize) -> Result<Vec<R>, LocalError>, FC: Fn(&[Complex<R>], usize) -> Result<Vec<Complex<R>>, LocalError>, XR: Fn(usize, Passage, Load<R, N, M>) -> (Load<R, N, M>, Result<(), FftError>), XC: Fn(usize, Passage, Load<Complex<R>, N, M>) -> (Load<Complex<R>, N, M>, Result<(), FftError>), V: Inspector<R, MixedError, N, M>, const N: usize, const M: usize> Crew<MixedR2cInPlaceTask<R, N, M>, MixedError> for MixedR2cInPlaceReverseCrew<'a, FR, FX, FC, XR, XC, V, N, M> {
    open spec fn able(&self) -> bool {
        &&& self.core.wf()
        &&& self.prefixes@.len() == self.core.stages@.len()
        &&& all_kernels::<R, R, LocalError, FR>(self.prefixes@)
        &&& self.kernels@.len() == self.core.stages@.len()
        &&& all_kernels::<Complex<R>, Complex<R>, LocalError, FC>(self.kernels@)
        &&& line_kernel::<Complex<R>, R, LocalError, FX>(*self.crossing)
        &&& carries::<R, XR, N, M>(*self.real_exchange)
        &&& carries::<Complex<R>, XC, N, M>(*self.exchange)
        &&& self.inspector.able()
    }

    open spec fn fit(&self, state: MixedR2cInPlaceTask<R, N, M>) -> bool {
        &&& shared_wf(state.0.shared)
        &&& state.0.shared.storage matches Some(HalfComplexStorage::Complex(values)) ==> forall|i: int|
            0 <= i < values.pencils@.len() ==> self.inspector.admits(#[trigger] values.pencils@[i])
    }

    open spec fn does(
        &self,
        step: Step,
        before: MixedR2cInPlaceTask<R, N, M>,
        after: MixedR2cInPlaceTask<R, N, M>,
        outcome: Result<(), MixedError>,
    ) -> bool {
        &&& after.0.core == before.0.core
        &&& after.0.state == before.0.state
        &&& match (step.work, step.from, step.to) {
            (Work::Exchange(index), _, _) => {
                &&& after.1 == (MixedR2cInPlaceWorkspace {
                    buffers: MixedBuffers {
                        transpose: after.1.buffers.transpose,
                        real_transpose: after.1.buffers.real_transpose,
                        ..before.1.buffers
                    },
                    ..before.1
                })
                &&& shared_carried::<R, MixedError, XR, XC, N, M>(
                    *self.real_exchange,
                    *self.exchange,
                    self.core.transitions@,
                    self.direction,
                    index,
                    step.from,
                    mixed_shared_load(before),
                    mixed_shared_load(after),
                    outcome,
                )
            },
            (Work::Validate, _, _) => {
                &&& after == before
                &&& match before.0.shared.storage {
                    Some(HalfComplexStorage::Complex(values)) => self.inspector.finds(
                        values,
                        outcome,
                    ),
                    _ => misplaced(outcome),
                }
            },
            (Work::Clear, _, _) => {
                &&& after.1 == before.1
                &&& same_frame(before.0.shared, after.0.shared)
                &&& match before.0.shared.storage {
                    Some(HalfComplexStorage::Complex(values)) => after.0.shared.storage matches Some(
                        HalfComplexStorage::Complex(cleared),
                    ) && self.inspector.clears(values, cleared, outcome),
                    _ => after == before && misplaced(outcome),
                }
            },
            (Work::Kernel(_), Slot::Complex, Slot::Real) => {
                &&& after.1 == before.1
                &&& mixed_complex_handed_over::<R, FX, N, M>(
                    *self.crossing,
                    self.core.spec_boundary(),
                    self.core.extra_shape,
                    mixed_line_buffers(before.1.buffers),
                    before.0.shared,
                    after.0.shared,
                    outcome,
                )
            },
            (Work::Kernel(stage), Slot::Complex, Slot::Complex) => if stage
                >= self.core.stages@.len() {
                after == before && unknown_step(outcome)
            } else {
                &&& after.1 == (MixedR2cInPlaceWorkspace {
                    buffers: MixedBuffers { complex_strided_line: after.1.buffers.complex_strided_line, ..before.1.buffers },
                    ..before.1
                })
                &&& after.1.buffers.complex_strided_line@.len()
                    == before.1.buffers.complex_strided_line@.len()
                &&& same_frame(before.0.shared, after.0.shared)
                &&& match before.0.shared.storage {
                    Some(HalfComplexStorage::Complex(values)) => after.0.shared.storage matches Some(
                        HalfComplexStorage::Complex(worked),
                    ) && applied::<Complex<R>, MixedError, MixedComplexStation<FC, N, M>, N, M>(
                        self.core.spec_tail_station(self.direction, step, &self.kernels@[stage as int]),
                        values,
                        worked,
                        before.1.buffers.complex_strided_line@.len() as usize,
                        outcome,
                    ),
                    _ => after.0.shared == before.0.shared && misplaced(outcome),
                }
            },
            (Work::Kernel(stage), Slot::Real, Slot::Real) => if stage >= self.core.stages@.len() {
                after == before && unknown_step(outcome)
            } else {
                &&& after.1 == (MixedR2cInPlaceWorkspace {
                    buffers: MixedBuffers { real_strided_line: after.1.buffers.real_strided_line, ..before.1.buffers },
                    ..before.1
                })
                &&& after.1.buffers.real_strided_line@.len()
                    == before.1.buffers.real_strided_line@.len()
                &&& same_frame(before.0.shared, after.0.shared)
                &&& match before.0.shared.storage {
                    Some(HalfComplexStorage::Real(values)) => after.0.shared.storage matches Some(
                        HalfComplexStorage::Real(worked),
                    ) && applied::<R, MixedError, MixedRealStation<FR, N, M>, N, M>(
                        self.core.spec_prefix_station(
                            self.direction,
                            step,
                            &self.prefixes@[stage as int],
                        ),
                        values,
                        worked,
                        before.1.buffers.real_strided_line@.len() as usize,
                        outcome,
                    ),
                    _ => after.0.shared == before.0.shared && misplaced(outcome),
                }
            },
            _ => after == before && unknown_step(outcome),
        }
    }

    fn work(&self, step: &Step, state: MixedR2cInPlaceTask<R, N, M>) -> (result: (
        MixedR2cInPlaceTask<R, N, M>,
        Result<(), MixedError>,
    )) {
        let (mut array, mut workspace): MixedR2cInPlaceTask<R, N, M> = state;
        match (step.work, step.from, step.to) {
            (Work::Exchange(index), _, _) => {
                let load: SharedLoad<R, N, M> = SharedLoad {
                    shared: array.shared,
                    real_buffers: workspace.buffers.real_transpose,
                    buffers: workspace.buffers.transpose,
                };
                let (left, outcome): (SharedLoad<R, N, M>, Result<(), MixedError>) = shared_carry(
                    self.real_exchange,
                    self.exchange,
                    &self.core.transitions,
                    self.direction,
                    index,
                    step.from,
                    load,
                );
                array.shared = left.shared;
                workspace.buffers.real_transpose = left.real_buffers;
                workspace.buffers.transpose = left.buffers;
                ((array, workspace), outcome)
            },
            (Work::Validate, _, _) => {
                let outcome: Result<(), MixedError> = match &array.shared.storage {
                    Some(HalfComplexStorage::Complex(values)) => self.inspector.inspect(values),
                    _ => Err(MixedError::Fft(FftError::StorageLayoutMismatch)),
                };
                ((array, workspace), outcome)
            },
            (Work::Clear, _, _) => {
                let outcome: Result<(), MixedError> = match &mut array.shared.storage {
                    Some(HalfComplexStorage::Complex(values)) => self.inspector.clear(values),
                    _ => Err(MixedError::Fft(FftError::StorageLayoutMismatch)),
                };
                ((array, workspace), outcome)
            },
            (Work::Kernel(_), Slot::Complex, Slot::Real) => {
                let lines: LineBuffers = count_line_buffers(&workspace.buffers);
                let boundary: Boundary<N, M> = self.core.boundary_lines();
                let outcome: Result<(), MixedError> = mixed_convert_complex_to_real(
                    self.crossing,
                    &boundary,
                    &self.core.extra_shape,
                    &mut array.shared,
                    &lines,
                );
                ((array, workspace), outcome)
            },
            (Work::Kernel(stage), Slot::Complex, Slot::Complex) => {
                if stage >= self.core.stages.len() {
                    return (
                        (array, workspace),
                        Err(MixedError::Fft(FftError::PreparationFailed)),
                    );
                }
                let outcome: Result<(), MixedError> = self.core.perform_complex_in_place(
                    self.direction,
                    step,
                    &self.kernels[stage],
                    &mut array,
                    &mut workspace.buffers.complex_strided_line,
                );
                ((array, workspace), outcome)
            },
            (Work::Kernel(stage), Slot::Real, Slot::Real) => {
                if stage >= self.core.stages.len() {
                    return (
                        (array, workspace),
                        Err(MixedError::Fft(FftError::PreparationFailed)),
                    );
                }
                let outcome: Result<(), MixedError> = self.core.perform_real_in_place(
                    self.direction,
                    step,
                    &self.prefixes[stage],
                    &mut array,
                    &mut workspace.buffers.real_strided_line,
                );
                ((array, workspace), outcome)
            },
            _ => ((array, workspace), Err(MixedError::Fft(FftError::PreparationFailed))),
        }
    }
}

} // verus!
