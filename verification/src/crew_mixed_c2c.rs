//! Those who do the steps of mixed complex plans.

use vstd::prelude::*;

use crate::array::PencilArray;
use crate::carrier::carried;
use crate::carrier::carries;
use crate::carrier::carries_split;
use crate::carrier::carry;
use crate::carrier::goes_point_to_point;
use crate::carrier::is_point_to_point;
use crate::carrier::Load;
use crate::crew::Crew;
use crate::crew::OverlapCrew;
use crate::error::FftError;

use crate::error::MixedError;
use crate::error::OverlapError;
use crate::kernels::MixedComplexStation;
use crate::layout::Direction;
use crate::lines::all_kernels;
use crate::perform::step_done;
use crate::perform::unknown_step;
use crate::mixed_c2c::MixedC2cCore;
use crate::mixed_c2c::MixedC2cInPlaceArray;
use crate::mixed_c2c::MixedC2cInPlaceWorkspace;
use crate::mixed_c2c::MixedC2cWorkspace;
use crate::scalar::Complex;
use crate::scalar::FftReal;
use crate::schedule::Step;
use crate::schedule::Work;
use crate::station::applied;
use crate::stages::LocalError;
use crate::transition::Passage;

verus! {

/// Those who do the steps of an out-of-place execution.
pub struct MixedC2cCrew<'a, R, F, X, const N: usize, const M: usize> {
    /// The plan.
    pub core: &'a MixedC2cCore<N, M>,
    /// Which way the execution goes.
    pub direction: Direction,
    /// The kernel of each stage.
    pub kernels: &'a Vec<F>,
    /// Exchanges values.
    pub exchange: &'a X,
    /// Where the values come from.
    pub source: &'a PencilArray<Complex<R>, N, M>,
}

/// The destination and the buffers of an out-of-place execution.
pub type MixedC2cTask<R, const N: usize, const M: usize> = (
    PencilArray<Complex<R>, N, M>,
    MixedC2cWorkspace<R, N, M>,
);

impl<'a, R: FftReal, F: Fn(&[Complex<R>], usize) -> Result<Vec<Complex<R>>, LocalError>, X: Fn(usize, Passage, Load<Complex<R>, N, M>) -> (Load<Complex<R>, N, M>, Result<(), FftError>), const N: usize, const M: usize> Crew<MixedC2cTask<R, N, M>, MixedError> for MixedC2cCrew<'a, R, F, X, N, M> {
    open spec fn able(&self) -> bool {
        &&& self.core.wf()
        &&& self.kernels@.len() == self.core.stages@.len()
        &&& all_kernels::<Complex<R>, Complex<R>, LocalError, F>(self.kernels@)
        &&& carries::<Complex<R>, X, N, M>(*self.exchange)
    }

    open spec fn fit(&self, state: MixedC2cTask<R, N, M>) -> bool {
        state.1.intermediate.wf()
    }

    open spec fn does(
        &self,
        step: Step,
        before: MixedC2cTask<R, N, M>,
        after: MixedC2cTask<R, N, M>,
        outcome: Result<(), MixedError>,
    ) -> bool {
        let stage = self.core.stage_of(step);
        match step.work {
            Work::Exchange(index) => {
                &&& after.0 == before.0
                &&& after.1 == (MixedC2cWorkspace {
                    intermediate: after.1.intermediate,
                    transpose: after.1.transpose,
                    ..before.1
                })
                &&& carried::<Complex<R>, MixedError, X, N, M>(
                    *self.exchange,
                    self.core.transitions@,
                    self.direction,
                    index,
                    (before.1.intermediate, before.1.transpose),
                    (after.1.intermediate, after.1.transpose),
                    outcome,
                )
            },
            _ => if stage >= self.core.stages@.len() {
                after == before && unknown_step(outcome)
            } else {
                &&& after.0.pencil == before.0.pencil
                &&& after.0.extra_shape == before.0.extra_shape
                &&& after.1.core == before.1.core
                &&& after.1.transpose == before.1.transpose
                &&& after.1.line_buffer@.len() == before.1.line_buffer@.len()
                &&& step_done::<Complex<R>, MixedError, MixedComplexStation<F, N, M>, N, M>(
                    self.core.spec_station(self.direction, step, &self.kernels@[stage]),
                    step,
                    self.core.entry_pencil(self.direction),
                    self.source.data@,
                    (before.1.intermediate, after.1.intermediate),
                    (before.0.data@, after.0.data@),
                    before.1.line_buffer@.len() as usize,
                    outcome,
                )
            },
        }
    }

    fn work(&self, step: &Step, state: MixedC2cTask<R, N, M>) -> (result: (
        MixedC2cTask<R, N, M>,
        Result<(), MixedError>,
    )) {
        let (mut destination, mut workspace): MixedC2cTask<R, N, M> = state;
        let stage: usize = match step.work {
            Work::Exchange(index) => {
                let load: Load<Complex<R>, N, M> = (workspace.intermediate, workspace.transpose);
                let ((intermediate, transpose), outcome): (
                    Load<Complex<R>, N, M>,
                    Result<(), MixedError>,
                ) = carry(
                    self.exchange,
                    &self.core.transitions,
                    self.direction,
                    index,
                    load,
                );
                workspace.intermediate = intermediate;
                workspace.transpose = transpose;
                return ((destination, workspace), outcome);
            },
            Work::Kernel(stage) => stage,
            _ => 0,
        };
        if stage >= self.core.stages.len() {
            return ((destination, workspace), Err(MixedError::Fft(FftError::PreparationFailed)));
        }
        let outcome: Result<(), MixedError> = self.core.perform(
            self.direction,
            step,
            &self.kernels[stage],
            self.source,
            &mut destination,
            &mut workspace,
        );
        ((destination, workspace), outcome)
    }
}

/// Those who do the steps of an execution with overlap.
pub struct MixedC2cOverlapCrew<'a, R: FftReal, F, X, Y, const N: usize, const M: usize> {
    /// Those who do the steps.
    pub crew: MixedC2cCrew<'a, R, F, X, N, M>,
    /// Exchanges values in two parts.
    pub split: &'a Y,
}

impl<'a, R: FftReal, F: Fn(&[Complex<R>], usize) -> Result<Vec<Complex<R>>, LocalError>, X: Fn(usize, Passage, Load<Complex<R>, N, M>) -> (Load<Complex<R>, N, M>, Result<(), FftError>), Y: Fn(usize, Direction, Option<bool>, Load<Complex<R>, N, M>) -> (Load<Complex<R>, N, M>, Result<(), OverlapError<MixedError>>), const N: usize, const M: usize> Crew<MixedC2cTask<R, N, M>, MixedError> for MixedC2cOverlapCrew<'a, R, F, X, Y, N, M> {
    open spec fn able(&self) -> bool {
        self.crew.able() && carries_split::<Complex<R>, MixedError, Y, N, M>(*self.split)
    }

    open spec fn fit(&self, state: MixedC2cTask<R, N, M>) -> bool {
        self.crew.fit(state)
    }

    open spec fn does(
        &self,
        step: Step,
        before: MixedC2cTask<R, N, M>,
        after: MixedC2cTask<R, N, M>,
        outcome: Result<(), MixedError>,
    ) -> bool {
        self.crew.does(step, before, after, outcome)
    }

    fn work(&self, step: &Step, state: MixedC2cTask<R, N, M>) -> (result: (
        MixedC2cTask<R, N, M>,
        Result<(), MixedError>,
    )) {
        self.crew.work(step, state)
    }
}

/// What a part of an exchange comes to.
pub open spec fn part_done<R: FftReal, Y: Fn(usize, Direction, Option<bool>, Load<Complex<R>, N, M>) -> (Load<Complex<R>, N, M>, Result<(), OverlapError<MixedError>>), const N: usize, const M: usize>(
    split: Y,
    direction: Direction,
    index: usize,
    valid: Option<bool>,
    before: MixedC2cTask<R, N, M>,
    after: MixedC2cTask<R, N, M>,
    outcome: Result<(), OverlapError<MixedError>>,
) -> bool {
    &&& after.0 == before.0
    &&& after.1 == (MixedC2cWorkspace {
        intermediate: after.1.intermediate,
        transpose: after.1.transpose,
        ..before.1
    })
    &&& split.ensures(
        (index, direction, valid, (before.1.intermediate, before.1.transpose)),
        ((after.1.intermediate, after.1.transpose), outcome),
    )
}

fn do_part<R: FftReal, Y: Fn(usize, Direction, Option<bool>, Load<Complex<R>, N, M>) -> (Load<Complex<R>, N, M>, Result<(), OverlapError<MixedError>>), const N: usize, const M: usize>(
    split: &Y,
    direction: Direction,
    index: usize,
    valid: Option<bool>,
    state: MixedC2cTask<R, N, M>,
) -> (result: (MixedC2cTask<R, N, M>, Result<(), OverlapError<MixedError>>))
    requires
        carries_split::<Complex<R>, MixedError, Y, N, M>(*split),
    ensures
        state.1.intermediate.wf() && result.1 is Ok ==> result.0.1.intermediate.wf(),
        part_done::<R, Y, N, M>(*split, direction, index, valid, state, result.0, result.1),
{
    let (destination, mut workspace): MixedC2cTask<R, N, M> = state;
    let load: Load<Complex<R>, N, M> = (workspace.intermediate, workspace.transpose);
    let ((intermediate, transpose), outcome): (
        Load<Complex<R>, N, M>,
        Result<(), OverlapError<MixedError>>,
    ) = split(index, direction, valid, load);
    workspace.intermediate = intermediate;
    workspace.transpose = transpose;
    assert(split.ensures((index, direction, valid, load), ((intermediate, transpose), outcome)));
    match outcome {
        Ok(done) => {
            assert(outcome == Ok::<(), OverlapError<MixedError>>(()));
            ((destination, workspace), Ok(done))
        },
        Err(error) => ((destination, workspace), Err(error)),
    }
}

impl<'a, R: FftReal, F: Fn(&[Complex<R>], usize) -> Result<Vec<Complex<R>>, LocalError>, X: Fn(usize, Passage, Load<Complex<R>, N, M>) -> (Load<Complex<R>, N, M>, Result<(), FftError>), Y: Fn(usize, Direction, Option<bool>, Load<Complex<R>, N, M>) -> (Load<Complex<R>, N, M>, Result<(), OverlapError<MixedError>>), const N: usize, const M: usize> OverlapCrew<MixedC2cTask<R, N, M>, MixedError> for MixedC2cOverlapCrew<'a, R, F, X, Y, N, M> {
    open spec fn spec_eager(&self, index: usize) -> bool {
        goes_point_to_point(self.crew.core.transitions@, self.crew.direction, index)
    }

    open spec fn lands(
        &self,
        index: usize,
        before: MixedC2cTask<R, N, M>,
        after: MixedC2cTask<R, N, M>,
        outcome: Result<(), OverlapError<MixedError>>,
    ) -> bool {
        part_done::<R, Y, N, M>(*self.split, self.crew.direction, index, None, before, after, outcome)
    }

    open spec fn settles(
        &self,
        index: usize,
        valid: bool,
        before: MixedC2cTask<R, N, M>,
        after: MixedC2cTask<R, N, M>,
        outcome: Result<(), OverlapError<MixedError>>,
    ) -> bool {
        part_done::<R, Y, N, M>(*self.split, self.crew.direction, index, Some(valid), before, after, outcome)
    }

    fn eager(&self, index: usize) -> (yes: bool) {
        is_point_to_point(&self.crew.core.transitions, self.crew.direction, index)
    }

    fn land(&self, index: usize, state: MixedC2cTask<R, N, M>) -> (result: (
        MixedC2cTask<R, N, M>,
        Result<(), OverlapError<MixedError>>,
    )) {
        do_part(self.split, self.crew.direction, index, None, state)
    }

    fn settle(&self, index: usize, valid: bool, state: MixedC2cTask<R, N, M>) -> (result: (
        MixedC2cTask<R, N, M>,
        Result<(), OverlapError<MixedError>>,
    )) {
        do_part(self.split, self.crew.direction, index, Some(valid), state)
    }
}

/// Those who do the steps of an in-place execution.
pub struct MixedC2cInPlaceCrew<'a, F, X, const N: usize, const M: usize> {
    /// The plan.
    pub core: &'a MixedC2cCore<N, M>,
    /// Which way the execution goes.
    pub direction: Direction,
    /// The kernel of each stage.
    pub kernels: &'a Vec<F>,
    /// Exchanges values.
    pub exchange: &'a X,
}

/// The array and the buffers of an in-place execution.
pub type MixedC2cInPlaceTask<R, const N: usize, const M: usize> = (
    MixedC2cInPlaceArray<R, N, M>,
    MixedC2cInPlaceWorkspace<R, N, M>,
);

impl<'a, R: FftReal, F: Fn(&[Complex<R>], usize) -> Result<Vec<Complex<R>>, LocalError>, X: Fn(usize, Passage, Load<Complex<R>, N, M>) -> (Load<Complex<R>, N, M>, Result<(), FftError>), const N: usize, const M: usize> Crew<MixedC2cInPlaceTask<R, N, M>, MixedError> for MixedC2cInPlaceCrew<'a, F, X, N, M> {
    open spec fn able(&self) -> bool {
        &&& self.core.wf()
        &&& self.kernels@.len() == self.core.stages@.len()
        &&& all_kernels::<Complex<R>, Complex<R>, LocalError, F>(self.kernels@)
        &&& carries::<Complex<R>, X, N, M>(*self.exchange)
    }

    open spec fn fit(&self, state: MixedC2cInPlaceTask<R, N, M>) -> bool {
        state.0.array.wf()
    }

    open spec fn does(
        &self,
        step: Step,
        before: MixedC2cInPlaceTask<R, N, M>,
        after: MixedC2cInPlaceTask<R, N, M>,
        outcome: Result<(), MixedError>,
    ) -> bool {
        &&& after.0.core == before.0.core
        &&& after.0.state == before.0.state
        &&& match step.work {
            Work::Exchange(index) => {
                &&& after.1 == (MixedC2cInPlaceWorkspace { transpose: after.1.transpose, ..before.1 })
                &&& carried::<Complex<R>, MixedError, X, N, M>(
                    *self.exchange,
                    self.core.transitions@,
                    self.direction,
                    index,
                    (before.0.array, before.1.transpose),
                    (after.0.array, after.1.transpose),
                    outcome,
                )
            },
            Work::Kernel(stage) => if stage >= self.core.stages@.len() {
                after == before && unknown_step(outcome)
            } else {
                &&& after.1.core == before.1.core
                &&& after.1.transpose == before.1.transpose
                &&& after.1.line_buffer@.len() == before.1.line_buffer@.len()
                &&& applied::<Complex<R>, MixedError, MixedComplexStation<F, N, M>, N, M>(
                    self.core.spec_station(self.direction, step, &self.kernels@[stage as int]),
                    before.0.array,
                    after.0.array,
                    before.1.line_buffer@.len() as usize,
                    outcome,
                )
            },
            _ => after == before && unknown_step(outcome),
        }
    }

    fn work(&self, step: &Step, state: MixedC2cInPlaceTask<R, N, M>) -> (result: (
        MixedC2cInPlaceTask<R, N, M>,
        Result<(), MixedError>,
    )) {
        let (mut array, mut workspace): MixedC2cInPlaceTask<R, N, M> = state;
        match step.work {
            Work::Exchange(index) => {
                let load: Load<Complex<R>, N, M> = (array.array, workspace.transpose);
                let ((values, transpose), outcome): (Load<Complex<R>, N, M>, Result<(), MixedError>) = carry(
                    self.exchange,
                    &self.core.transitions,
                    self.direction,
                    index,
                    load,
                );
                array.array = values;
                workspace.transpose = transpose;
                ((array, workspace), outcome)
            },
            Work::Kernel(stage) => {
                if stage >= self.core.stages.len() {
                    return (
                        (array, workspace),
                        Err(MixedError::Fft(FftError::PreparationFailed)),
                    );
                }
                let outcome: Result<(), MixedError> = self.core.perform_in_place(
                    self.direction,
                    step,
                    &self.kernels[stage],
                    &mut array,
                    &mut workspace,
                );
                ((array, workspace), outcome)
            },
            _ => ((array, workspace), Err(MixedError::Fft(FftError::PreparationFailed))),
        }
    }
}

} // verus!
