//! Those who do the steps of real-to-real and Hartley plans.

use vstd::prelude::*;

use crate::array::PencilArray;
use crate::carrier::carried;
use crate::carrier::carries;
use crate::carrier::carry;
use crate::carrier::Load;
use crate::crew::Crew;
use crate::error::FftError;
use crate::error::LocalR2rError;
use crate::error::R2rError;
use crate::kernels::R2rStation;
use crate::layout::Direction;
use crate::lines::all_kernels;
use crate::perform::step_done;
use crate::perform::unknown_step;
use crate::r2r::R2rCore;
use crate::r2r::R2rInPlaceArray;
use crate::r2r::R2rInPlaceWorkspace;
use crate::r2r::R2rWorkspace;
use crate::scalar::R2rScalar;
use crate::schedule::Step;
use crate::schedule::Work;
use crate::station::applied;
use crate::transition::Passage;

verus! {

/// Those who do the steps of an out-of-place execution.
pub struct R2rCrew<'a, T: R2rScalar, F, X, const N: usize, const M: usize> {
    /// The plan.
    pub core: &'a R2rCore<N, M>,
    /// Which way the execution goes.
    pub direction: Direction,
    /// The kernel of each stage.
    pub kernels: &'a Vec<F>,
    /// Exchanges values.
    pub exchange: &'a X,
    /// Where the values come from.
    pub source: &'a PencilArray<T, N, M>,
}

/// The destination and the buffers of an out-of-place execution.
pub type R2rTask<T, const N: usize, const M: usize> = (
    PencilArray<T, N, M>,
    R2rWorkspace<T, N, M>,
);

impl<'a, T: R2rScalar, F: Fn(&[T], usize) -> Result<Vec<T>, LocalR2rError>, X: Fn(usize, Passage, Load<T, N, M>) -> (Load<T, N, M>, Result<(), FftError>), const N: usize, const M: usize> Crew<R2rTask<T, N, M>, R2rError> for R2rCrew<'a, T, F, X, N, M> {
    open spec fn able(&self) -> bool {
        &&& self.core.wf()
        &&& self.kernels@.len() == self.core.stages@.len()
        &&& all_kernels::<T, T, LocalR2rError, F>(self.kernels@)
        &&& carries::<T, X, N, M>(*self.exchange)
    }

    open spec fn fit(&self, state: R2rTask<T, N, M>) -> bool {
        state.1.intermediate.wf()
    }

    open spec fn does(
        &self,
        step: Step,
        before: R2rTask<T, N, M>,
        after: R2rTask<T, N, M>,
        outcome: Result<(), R2rError>,
    ) -> bool {
        let stage = self.core.stage_of(step);
        match step.work {
            Work::Exchange(index) => {
                &&& after.0 == before.0
                &&& after.1 == (R2rWorkspace {
                    intermediate: after.1.intermediate,
                    transpose: after.1.transpose,
                    ..before.1
                })
                &&& carried::<T, R2rError, X, N, M>(
                    *self.exchange,
                    self.core.transitions@,
                    self.direction,
                    index,
                    (before.1.intermediate, before.1.transpose),
                    (after.1.intermediate, after.1.transpose),
                    outcome,
                )
            },
            _ => if stage >= self.core.stages@.len() {
                after == before && unknown_step(outcome)
            } else {
                &&& after.0.pencil == before.0.pencil
                &&& after.0.extra_shape == before.0.extra_shape
                &&& after.1.core == before.1.core
                &&& after.1.transpose == before.1.transpose
                &&& after.1.line_buffer@.len() == before.1.line_buffer@.len()
                &&& step_done::<T, R2rError, R2rStation<F, N, M>, N, M>(
                    self.core.spec_station(self.direction, step, &self.kernels@[stage]),
                    step,
                    self.core.entry_pencil(self.direction),
                    self.source.data@,
                    (before.1.intermediate, after.1.intermediate),
                    (before.0.data@, after.0.data@),
                    before.1.line_buffer@.len() as usize,
                    outcome,
                )
            },
        }
    }

    fn work(&self, step: &Step, state: R2rTask<T, N, M>) -> (result: (
        R2rTask<T, N, M>,
        Result<(), R2rError>,
    )) {
        let (mut destination, mut workspace): R2rTask<T, N, M> = state;
        let stage: usize = match step.work {
            Work::Exchange(index) => {
                let load: Load<T, N, M> = (workspace.intermediate, workspace.transpose);
                let ((intermediate, transpose), outcome): (
                    Load<T, N, M>,
                    Result<(), R2rError>,
                ) = carry(
                    self.exchange,
                    &self.core.transitions,
                    self.direction,
                    index,
                    load,
                );
                workspace.intermediate = intermediate;
                workspace.transpose = transpose;
                return ((destination, workspace), outcome);
            },
            Work::Kernel(stage) => stage,
            _ => 0,
        };
        if stage >= self.core.stages.len() {
            return ((destination, workspace), Err(R2rError::Fft(FftError::PreparationFailed)));
        }
        let outcome: Result<(), R2rError> = self.core.perform(
            self.direction,
            step,
            &self.kernels[stage],
            self.source,
            &mut destination,
            &mut workspace,
        );
        ((destination, workspace), outcome)
    }
}

/// Those who do the steps of an in-place execution.
pub struct R2rInPlaceCrew<'a, F, X, const N: usize, const M: usize> {
    /// The plan.
    pub core: &'a R2rCore<N, M>,
    /// Which way the execution goes.
    pub direction: Direction,
    /// The kernel of each stage.
    pub kernels: &'a Vec<F>,
    /// Exchanges values.
    pub exchange: &'a X,
}

/// The array and the buffers of an in-place execution.
pub type R2rInPlaceTask<T, const N: usize, const M: usize> = (
    R2rInPlaceArray<T, N, M>,
    R2rInPlaceWorkspace<T, N, M>,
);

impl<'a, T: R2rScalar, F: Fn(&[T], usize) -> Result<Vec<T>, LocalR2rError>, X: Fn(usize, Passage, Load<T, N, M>) -> (Load<T, N, M>, Result<(), FftError>), const N: usize, const M: usize> Crew<R2rInPlaceTask<T, N, M>, R2rError> for R2rInPlaceCrew<'a, F, X, N, M> {
    open spec fn able(&self) -> bool {
        &&& self.core.wf()
        &&& self.kernels@.len() == self.core.stages@.len()
        &&& all_kernels::<T, T, LocalR2rError, F>(self.kernels@)
        &&& carries::<T, X, N, M>(*self.exchange)
    }

    open spec fn fit(&self, state: R2rInPlaceTask<T, N, M>) -> bool {
        state.0.array.wf()
    }

    open spec fn does(
        &self,
        step: Step,
        before: R2rInPlaceTask<T, N, M>,
        after: R2rInPlaceTask<T, N, M>,
        outcome: Result<(), R2rError>,
    ) -> bool {
        &&& after.0.core == before.0.core
        &&& after.0.state == before.0.state
        &&& match step.work {
            Work::Exchange(index) => {
                &&& after.1 == (R2rInPlaceWorkspace { transpose: after.1.transpose, ..before.1 })
                &&& carried::<T, R2rError, X, N, M>(
                    *self.exchange,
                    self.core.transitions@,
                    self.direction,
                    index,
                    (before.0.array, before.1.transpose),
                    (after.0.array, after.1.transpose),
                    outcome,
                )
            },
            Work::Kernel(stage) => if stage >= self.core.stages@.len() {
                after == before && unknown_step(outcome)
            } else {
                &&& after.1.core == before.1.core
                &&& after.1.transpose == before.1.transpose
                &&& after.1.line_buffer@.len() == before.1.line_buffer@.len()
                &&& applied::<T, R2rError, R2rStation<F, N, M>, N, M>(
                    self.core.spec_station(self.direction, step, &self.kernels@[stage as int]),
                    before.0.array,
                    after.0.array,
                    before.1.line_buffer@.len() as usize,
                    outcome,
                )
            },
            _ => after == before && unknown_step(outcome),
        }
    }

    fn work(&self, step: &Step, state: R2rInPlaceTask<T, N, M>) -> (result: (
        R2rInPlaceTask<T, N, M>,
        Result<(), R2rError>,
    )) {
        let (mut array, mut workspace): R2rInPlaceTask<T, N, M> = state;
        match step.work {
            Work::Exchange(index) => {
                let load: Load<T, N, M> = (array.array, workspace.transpose);
                let ((values, transpose), outcome): (Load<T, N, M>, Result<(), R2rError>) = carry(
                    self.exchange,
                    &self.core.transitions,
                    self.direction,
                    index,
                    load,
                );
                array.array = values;
                workspace.transpose = transpose;
                ((array, workspace), outcome)
            },
            Work::Kernel(stage) => {
                if stage >= self.core.stages.len() {
                    return (
                        (array, workspace),
                        Err(R2rError::Fft(FftError::PreparationFailed)),
                    );
                }
                let outcome: Result<(), R2rError> = self.core.perform_in_place(
                    self.direction,
                    step,
                    &self.kernels[stage],
                    &mut array,
                    &mut workspace,
                );
                ((array, workspace), outcome)
            },
            _ => ((array, workspace), Err(R2rError::Fft(FftError::PreparationFailed))),
        }
    }
}

} // verus!
