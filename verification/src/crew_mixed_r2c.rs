//! Those who do the steps of mixed real-to-complex plans out of place.

use vstd::prelude::*;

use crate::array::PencilArray;
use crate::carrier::carries;
use crate::carrier::carries_split;
use crate::carrier::goes_point_to_point;
use crate::carrier::is_point_to_point;
use crate::carrier::Load;
use crate::crew::Crew;
use crate::crew::OverlapCrew;
use crate::error::FftError;
use crate::error::MixedError;
use crate::error::OverlapError;
use crate::half_carrier::half_carried;
use crate::half_carrier::half_carry;
use crate::half_carrier::half_part;
use crate::half_carrier::half_part_done;
use crate::half_carrier::HalfLoad;
use crate::inspect::Inspector;
use crate::kernels::MixedComplexStation;
use crate::kernels::MixedForwardCrossing;
use crate::kernels::MixedRealStation;
use crate::kernels::MixedReverseCrossing;
use crate::layout::Direction;
use crate::lines::all_kernels;
use crate::lines::line_kernel;
use crate::mixed_r2c::MixedBuffers;
use crate::mixed_r2c::MixedR2cCore;
use crate::mixed_r2c::MixedR2cWorkspace;
use crate::perform::forward_done;
use crate::perform::reverse_done;
use crate::perform::unknown_step;
use crate::perform::HalfLens;
use crate::scalar::Complex;
use crate::scalar::FftReal;
use crate::schedule::Slot;
use crate::schedule::Step;
use crate::schedule::Work;
use crate::stage_work::mixed_buffers_kept;
use crate::stages::LocalError;
use crate::transition::Passage;

verus! {

/// The arrays of an out-of-place execution and the buffers of their exchanges.
pub open spec fn mixed_half_load<R: FftReal, const N: usize, const M: usize>(
    workspace: MixedR2cWorkspace<R, N, M>,
) -> HalfLoad<R, N, M> {
    HalfLoad {
        reals: workspace.real_intermediate,
        real_buffers: workspace.buffers.real_transpose,
        complexes: workspace.intermediate,
        buffers: workspace.buffers.transpose,
    }
}

/// Everything of a workspace but the arrays and the buffers of their exchanges is as before.
pub open spec fn mixed_half_frame<R: FftReal, const N: usize, const M: usize>(
    before: MixedR2cWorkspace<R, N, M>,
    after: MixedR2cWorkspace<R, N, M>,
) -> bool {
    after == (MixedR2cWorkspace {
        intermediate: after.intermediate,
        real_intermediate: after.real_intermediate,
        buffers: MixedBuffers {
            transpose: after.buffers.transpose,
            real_transpose: after.buffers.real_transpose,
            ..before.buffers
        },
        ..before
    })
}

/// The destination and the buffers of a forward execution.
pub type MixedR2cForwardTask<R, const N: usize, const M: usize> = (
    PencilArray<Complex<R>, N, M>,
    MixedR2cWorkspace<R, N, M>,
);

/// The destination and the buffers of a reverse execution.
pub type MixedR2cReverseTask<R, const N: usize, const M: usize> = (
    PencilArray<R, N, M>,
    MixedR2cWorkspace<R, N, M>,
);

/// Those who do the steps of a forward execution.
pub struct MixedR2cForwardCrew<'a, R: FftReal, FR, FX, FC, XR, XC, const N: usize, const M: usize> {
    /// The plan.
    pub core: &'a MixedR2cCore<N, M>,
    /// The kernel of each real stage.
    pub prefixes: &'a Vec<FR>,
    /// The kernel of the boundary.
    pub crossing: &'a FX,
    /// The kernel of each complex stage.
    pub kernels: &'a Vec<FC>,
    /// Exchanges real values.
    pub real_exchange: &'a XR,
    /// Exchanges complex values.
    pub exchange: &'a XC,
    /// Where the values come from.
    pub source: &'a PencilArray<R, N, M>,
}

impl<'a, R: FftReal, FR: Fn(&[R], usize) -> Result<Vec<R>, LocalError>, FX: Fn(&[R], usize) -> Result<Vec<Complex<R>>, LocalError>, FC: Fn(&[Complex<R>], usize) -> Result<Vec<Complex<R>>, LocalError>, XR: Fn(usize, Passage, Load<R, N, M>) -> (Load<R, N, M>, Result<(), FftError>), XC: Fn(usize, Passage, Load<Complex<R>, N, M>) -> (Load<Complex<R>, N, M>, Result<(), FftError>), const N: usize, const M: usize> Crew<MixedR2cForwardTask<R, N, M>, MixedError> for MixedR2cForwardCrew<'a, R, FR, FX, FC, XR, XC, N, M> {
    open spec fn able(&self) -> bool {
        &&& self.core.wf()
        &&& self.prefixes@.len() == self.core.stages@.len()
        &&& all_kernels::<R, R, LocalError, FR>(self.prefixes@)
        &&& self.kernels@.len() == self.core.stages@.len()
        &&& all_kernels::<Complex<R>, Complex<R>, LocalError, FC>(self.kernels@)
        &&& line_kernel::<R, Complex<R>, LocalError, FX>(*self.crossing)
        &&& carries::<R, XR, N, M>(*self.real_exchange)
        &&& carries::<Complex<R>, XC, N, M>(*self.exchange)
    }

    open spec fn fit(&self, state: MixedR2cForwardTask<R, N, M>) -> bool {
        mixed_half_load(state.1).arrays().wf()
    }

    open spec fn does(
        &self,
        step: Step,
        before: MixedR2cForwardTask<R, N, M>,
        after: MixedR2cForwardTask<R, N, M>,
        outcome: Result<(), MixedError>,
    ) -> bool {
        let stage = self.core.stage_of(step);
        match step.work {
            Work::Exchange(index) => {
                &&& after.0 == before.0
                &&& mixed_half_frame(before.1, after.1)
                &&& half_carried::<R, MixedError, XR, XC, N, M>(
                    *self.real_exchange,
                    *self.exchange,
                    self.core.transitions@,
                    Direction::Forward,
                    index,
                    step.from,
                    mixed_half_load(before.1),
                    mixed_half_load(after.1),
                    outcome,
                )
            },
            _ => if stage >= self.core.stages@.len() {
                after == before && unknown_step(outcome)
            } else {
                &&& after.0.pencil == before.0.pencil
                &&& after.0.extra_shape == before.0.extra_shape
                &&& after.1.core == before.1.core
                &&& mixed_buffers_kept(before.1.buffers, after.1.buffers)
                &&& forward_done::<R, MixedError, MixedRealStation<FR, N, M>, MixedForwardCrossing<FX, N, M>, MixedComplexStation<FC, N, M>, N, M>(
                    (
                        self.core.spec_prefix_station(Direction::Forward, step, &self.prefixes@[stage]),
                        self.core.spec_forward_crossing(
                            self.crossing,
                            before.1.buffers.complex_line@.len() as usize,
                        ),
                        self.core.spec_tail_station(
                            Direction::Forward,
                            step,
                            &self.kernels@[stage],
                        ),
                    ),
                    step,
                    self.core.entries(Direction::Forward),
                    self.source.data@,
                    mixed_half_load(before.1).arrays(),
                    mixed_half_load(after.1).arrays(),
                    (before.0.data@, after.0.data@),
                    (HalfLens {
                        crossing: before.1.buffers.real_source_line@.len() as usize,
                        reals: before.1.buffers.real_strided_line@.len() as usize,
                        complexes: before.1.buffers.complex_strided_line@.len() as usize,
                    }),
                    outcome,
                )
            },
        }
    }

    fn work(&self, step: &Step, state: MixedR2cForwardTask<R, N, M>) -> (result: (
        MixedR2cForwardTask<R, N, M>,
        Result<(), MixedError>,
    )) {
        let (mut destination, mut workspace): MixedR2cForwardTask<R, N, M> = state;
        let stage: usize = match step.work {
            Work::Exchange(index) => {
                let load: HalfLoad<R, N, M> = HalfLoad {
                    reals: workspace.real_intermediate,
                    real_buffers: workspace.buffers.real_transpose,
                    complexes: workspace.intermediate,
                    buffers: workspace.buffers.transpose,
                };
                let (left, outcome): (HalfLoad<R, N, M>, Result<(), MixedError>) = half_carry(
                    self.real_exchange,
                    self.exchange,
                    &self.core.transitions,
                    Direction::Forward,
                    index,
                    step.from,
                    load,
                );
                workspace.real_intermediate = left.reals;
                workspace.buffers.real_transpose = left.real_buffers;
                workspace.intermediate = left.complexes;
                workspace.buffers.transpose = left.buffers;
                return ((destination, workspace), outcome);
            },
            Work::Kernel(stage) => stage,
            _ => 0,
        };
        if stage >= self.core.stages.len() {
            return ((destination, workspace), Err(MixedError::Fft(FftError::PreparationFailed)));
        }
        let outcome: Result<(), MixedError> = self.core.perform_forward(
            step,
            &self.prefixes[stage],
            self.crossing,
            &self.kernels[stage],
            self.source,
            &mut destination,
            &mut workspace,
        );
        ((destination, workspace), outcome)
    }
}

/// Those who do the steps of a reverse execution.
pub struct MixedR2cReverseCrew<'a, R: FftReal, FR, FX, FC, XR, XC, V, const N: usize, const M: usize> {
    /// The plan.
    pub core: &'a MixedR2cCore<N, M>,
    /// Which way the execution goes.
    pub direction: Direction,
    /// The kernel of each real stage.
    pub prefixes: &'a Vec<FR>,
    /// The kernel of the boundary.
    pub crossing: &'a FX,
    /// The kernel of each complex stage.
    pub kernels: &'a Vec<FC>,
    /// Exchanges real values.
    pub real_exchange: &'a XR,
    /// Exchanges complex values.
    pub exchange: &'a XC,
    /// Checks and clears the endpoint planes.
    pub inspector: &'a V,
    /// Where the values come from.
    pub source: &'a PencilArray<Complex<R>, N, M>,
}

impl<'a, R: FftReal, FR: Fn(&[R], usize) -> Result<Vec<R>, LocalError>, FX: Fn(&[Complex<R>], usize) -> Result<Vec<R>, LocalError>, FC: Fn(&[Complex<R>], usize) -> Result<Vec<Complex<R>>, LocalError>, XR: Fn(usize, Passage, Load<R, N, M>) -> (Load<R, N, M>, Result<(), FftError>), XC: Fn(usize, Passage, Load<Complex<R>, N, M>) -> (Load<Complex<R>, N, M>, Result<(), FftError>), V: Inspector<R, MixedError, N, M>, const N: usize, const M: usize> Crew<MixedR2cReverseTask<R, N, M>, MixedError> for MixedR2cReverseCrew<'a, R, FR, FX, FC, XR, XC, V, N, M> {
    open spec fn able(&self) -> bool {
        &&& self.core.wf()
        &&& self.prefixes@.len() == self.core.stages@.len()
        &&& all_kernels::<R, R, LocalError, FR>(self.prefixes@)
        &&& self.kernels@.len() == self.core.stages@.len()
        &&& all_kernels::<Complex<R>, Complex<R>, LocalError, FC>(self.kernels@)
        &&& line_kernel::<Complex<R>, R, LocalError, FX>(*self.crossing)
        &&& carries::<R, XR, N, M>(*self.real_exchange)
        &&& carries::<Complex<R>, XC, N, M>(*self.exchange)
        &&& self.inspector.able()
    }

    open spec fn fit(&self, state: MixedR2cReverseTask<R, N, M>) -> bool {
        &&& mixed_half_load(state.1).arrays().wf()
        &&& forall|i: int|
            0 <= i < state.1.intermediate.pencils@.len() ==> self.inspector.admits(
                #[trigger] state.1.intermediate.pencils@[i],
            )
    }

    open spec fn does(
        &self,
        step: Step,
        before: MixedR2cReverseTask<R, N, M>,
        after: MixedR2cReverseTask<R, N, M>,
        outcome: Result<(), MixedError>,
    ) -> bool {
        let stage = self.core.stage_of(step);
        match step.work {
            Work::Exchange(index) => {
                &&& after.0 == before.0
                &&& mixed_half_frame(before.1, after.1)
                &&& half_carried::<R, MixedError, XR, XC, N, M>(
                    *self.real_exchange,
                    *self.exchange,
                    self.core.transitions@,
                    self.direction,
                    index,
                    step.from,
                    mixed_half_load(before.1),
                    mixed_half_load(after.1),
                    outcome,
                )
            },
            Work::Validate => {
                &&& after == before
                &&& self.inspector.finds(before.1.intermediate, outcome)
            },
            Work::Clear => {
                &&& after.0 == before.0
                &&& after.1 == (MixedR2cWorkspace { intermediate: after.1.intermediate, ..before.1 })
                &&& self.inspector.clears(before.1.intermediate, after.1.intermediate, outcome)
            },
            _ => if stage >= self.core.stages@.len() {
                after == before && unknown_step(outcome)
            } else {
                &&& after.0.pencil == before.0.pencil
                &&& after.0.extra_shape == before.0.extra_shape
                &&& after.1.core == before.1.core
                &&& mixed_buffers_kept(before.1.buffers, after.1.buffers)
                &&& reverse_done::<R, MixedError, MixedRealStation<FR, N, M>, MixedReverseCrossing<FX, N, M>, MixedComplexStation<FC, N, M>, N, M>(
                    (
                        self.core.spec_prefix_station(Direction::Inverse, step, &self.prefixes@[stage]),
                        self.core.spec_reverse_crossing(
                            self.crossing,
                            before.1.buffers.real_line@.len() as usize,
                        ),
                        self.core.spec_tail_station(
                            Direction::Inverse,
                            step,
                            &self.kernels@[stage],
                        ),
                    ),
                    step,
                    self.core.entries(Direction::Inverse),
                    self.source.data@,
                    mixed_half_load(before.1).arrays(),
                    mixed_half_load(after.1).arrays(),
                    (before.0.data@, after.0.data@),
                    (HalfLens {
                    crossing: before.1.buffers.complex_source_line@.len() as usize,
                    reals: before.1.buffers.real_strided_line@.len() as usize,
                    complexes: before.1.buffers.complex_strided_line@.len() as usize,
                }),
                    outcome,
                )
            },
        }
    }

    fn work(&self, step: &Step, state: MixedR2cReverseTask<R, N, M>) -> (result: (
        MixedR2cReverseTask<R, N, M>,
        Result<(), MixedError>,
    )) {
        let (mut destination, mut workspace): MixedR2cReverseTask<R, N, M> = state;
        let stage: usize = match step.work {
            Work::Exchange(index) => {
                let load: HalfLoad<R, N, M> = HalfLoad {
                    reals: workspace.real_intermediate,
                    real_buffers: workspace.buffers.real_transpose,
                    complexes: workspace.intermediate,
                    buffers: workspace.buffers.transpose,
                };
                let (left, outcome): (HalfLoad<R, N, M>, Result<(), MixedError>) = half_carry(
                    self.real_exchange,
                    self.exchange,
                    &self.core.transitions,
                    self.direction,
                    index,
                    step.from,
                    load,
                );
                workspace.real_intermediate = left.reals;
                workspace.buffers.real_transpose = left.real_buffers;
                workspace.intermediate = left.complexes;
                workspace.buffers.transpose = left.buffers;
                return ((destination, workspace), outcome);
            },
            Work::Validate => {
                let outcome: Result<(), MixedError> = self.inspector.inspect(&workspace.intermediate);
                return ((destination, workspace), outcome);
            },
            Work::Clear => {
                let outcome: Result<(), MixedError> = self.inspector.clear(&mut workspace.intermediate);
                return ((destination, workspace), outcome);
            },
            Work::Kernel(stage) => stage,
            _ => 0,
        };
        if stage >= self.core.stages.len() {
            return ((destination, workspace), Err(MixedError::Fft(FftError::PreparationFailed)));
        }
        let outcome: Result<(), MixedError> = self.core.perform_reverse(
            step,
            &self.prefixes[stage],
            self.crossing,
            &self.kernels[stage],
            self.source,
            &mut destination,
            &mut workspace,
        );
        ((destination, workspace), outcome)
    }
}

/// What a part of the exchange `index` comes to: those before the boundary move real values.
pub open spec fn mixed_half_split_done<R: FftReal, A, YR: Fn(usize, Direction, Option<bool>, Load<R, N, M>) -> (Load<R, N, M>, Result<(), OverlapError<MixedError>>), YC: Fn(usize, Direction, Option<bool>, Load<Complex<R>, N, M>) -> (Load<Complex<R>, N, M>, Result<(), OverlapError<MixedError>>), const N: usize, const M: usize>(
    boundary: usize,
    splits: (YR, YC),
    direction: Direction,
    index: usize,
    valid: Option<bool>,
    before: (A, MixedR2cWorkspace<R, N, M>),
    after: (A, MixedR2cWorkspace<R, N, M>),
    outcome: Result<(), OverlapError<MixedError>>,
) -> bool {
    &&& after.0 == before.0
    &&& mixed_half_frame(before.1, after.1)
    &&& half_part_done::<R, MixedError, YR, YC, N, M>(
        splits.0,
        splits.1,
        direction,
        index,
        if index < boundary {
            Slot::Real
        } else {
            Slot::Complex
        },
        valid,
        mixed_half_load(before.1),
        mixed_half_load(after.1),
        outcome,
    )
}

fn do_mixed_half_split<R: FftReal, A, YR: Fn(usize, Direction, Option<bool>, Load<R, N, M>) -> (Load<R, N, M>, Result<(), OverlapError<MixedError>>), YC: Fn(usize, Direction, Option<bool>, Load<Complex<R>, N, M>) -> (Load<Complex<R>, N, M>, Result<(), OverlapError<MixedError>>), const N: usize, const M: usize>(
    boundary: usize,
    real_split: &YR,
    split: &YC,
    direction: Direction,
    index: usize,
    valid: Option<bool>,
    state: (A, MixedR2cWorkspace<R, N, M>),
) -> (result: ((A, MixedR2cWorkspace<R, N, M>), Result<(), OverlapError<MixedError>>))
    requires
        carries_split::<R, MixedError, YR, N, M>(*real_split),
        carries_split::<Complex<R>, MixedError, YC, N, M>(*split),
    ensures
        result.1 is Ok ==> mixed_half_load(result.0.1).serves(mixed_half_load(state.1)),
        mixed_half_split_done::<R, A, YR, YC, N, M>(
            boundary,
            (*real_split, *split),
            direction,
            index,
            valid,
            state,
            result.0,
            result.1,
        ),
{
    let (destination, mut workspace): (A, MixedR2cWorkspace<R, N, M>) = state;
    let load: HalfLoad<R, N, M> = HalfLoad {
        reals: workspace.real_intermediate,
        real_buffers: workspace.buffers.real_transpose,
        complexes: workspace.intermediate,
        buffers: workspace.buffers.transpose,
    };
    let at: Slot = if index < boundary {
        Slot::Real
    } else {
        Slot::Complex
    };
    let (left, outcome): (HalfLoad<R, N, M>, Result<(), OverlapError<MixedError>>) = half_part(
        real_split,
        split,
        direction,
        index,
        at,
        valid,
        load,
    );
    workspace.real_intermediate = left.reals;
    workspace.buffers.real_transpose = left.real_buffers;
    workspace.intermediate = left.complexes;
    workspace.buffers.transpose = left.buffers;
    ((destination, workspace), outcome)
}

/// Those who do the steps of a forward execution with overlap.
pub struct MixedR2cForwardOverlapCrew<'a, R: FftReal, FR, FX, FC, XR, XC, YR, YC, const N: usize, const M: usize> {
    /// Those who do the steps.
    pub crew: MixedR2cForwardCrew<'a, R, FR, FX, FC, XR, XC, N, M>,
    /// Exchanges real values in two parts.
    pub real_split: &'a YR,
    /// Exchanges complex values in two parts.
    pub split: &'a YC,
}

impl<'a, R: FftReal, FR: Fn(&[R], usize) -> Result<Vec<R>, LocalError>, FX: Fn(&[R], usize) -> Result<Vec<Complex<R>>, LocalError>, FC: Fn(&[Complex<R>], usize) -> Result<Vec<Complex<R>>, LocalError>, XR: Fn(usize, Passage, Load<R, N, M>) -> (Load<R, N, M>, Result<(), FftError>), XC: Fn(usize, Passage, Load<Complex<R>, N, M>) -> (Load<Complex<R>, N, M>, Result<(), FftError>), YR: Fn(usize, Direction, Option<bool>, Load<R, N, M>) -> (Load<R, N, M>, Result<(), OverlapError<MixedError>>), YC: Fn(usize, Direction, Option<bool>, Load<Complex<R>, N, M>) -> (Load<Complex<R>, N, M>, Result<(), OverlapError<MixedError>>), const N: usize, const M: usize> Crew<MixedR2cForwardTask<R, N, M>, MixedError> for MixedR2cForwardOverlapCrew<'a, R, FR, FX, FC, XR, XC, YR, YC, N, M> {
    open spec fn able(&self) -> bool {
        &&& self.crew.able()
        &&& carries_split::<R, MixedError, YR, N, M>(*self.real_split)
        &&& carries_split::<Complex<R>, MixedError, YC, N, M>(*self.split)
    }

    open spec fn fit(&self, state: MixedR2cForwardTask<R, N, M>) -> bool {
        self.crew.fit(state)
    }

    open spec fn does(
        &self,
        step: Step,
        before: MixedR2cForwardTask<R, N, M>,
        after: MixedR2cForwardTask<R, N, M>,
        outcome: Result<(), MixedError>,
    ) -> bool {
        self.crew.does(step, before, after, outcome)
    }

    fn work(&self, step: &Step, state: MixedR2cForwardTask<R, N, M>) -> (result: (
        MixedR2cForwardTask<R, N, M>,
        Result<(), MixedError>,
    )) {
        self.crew.work(step, state)
    }
}

impl<'a, R: FftReal, FR: Fn(&[R], usize) -> Result<Vec<R>, LocalError>, FX: Fn(&[R], usize) -> Result<Vec<Complex<R>>, LocalError>, FC: Fn(&[Complex<R>], usize) -> Result<Vec<Complex<R>>, LocalError>, XR: Fn(usize, Passage, Load<R, N, M>) -> (Load<R, N, M>, Result<(), FftError>), XC: Fn(usize, Passage, Load<Complex<R>, N, M>) -> (Load<Complex<R>, N, M>, Result<(), FftError>), YR: Fn(usize, Direction, Option<bool>, Load<R, N, M>) -> (Load<R, N, M>, Result<(), OverlapError<MixedError>>), YC: Fn(usize, Direction, Option<bool>, Load<Complex<R>, N, M>) -> (Load<Complex<R>, N, M>, Result<(), OverlapError<MixedError>>), const N: usize, const M: usize> OverlapCrew<MixedR2cForwardTask<R, N, M>, MixedError> for MixedR2cForwardOverlapCrew<'a, R, FR, FX, FC, XR, XC, YR, YC, N, M> {
    open spec fn spec_eager(&self, index: usize) -> bool {
        goes_point_to_point(self.crew.core.transitions@, Direction::Forward, index)
    }

    open spec fn lands(
        &self,
        index: usize,
        before: MixedR2cForwardTask<R, N, M>,
        after: MixedR2cForwardTask<R, N, M>,
        outcome: Result<(), OverlapError<MixedError>>,
    ) -> bool {
        mixed_half_split_done::<R, PencilArray<Complex<R>, N, M>, YR, YC, N, M>(
            self.crew.core.boundary,
            (*self.real_split, *self.split),
            Direction::Forward,
            index,
            None,
            before,
            after,
            outcome,
        )
    }

    open spec fn settles(
        &self,
        index: usize,
        valid: bool,
        before: MixedR2cForwardTask<R, N, M>,
        after: MixedR2cForwardTask<R, N, M>,
        outcome: Result<(), OverlapError<MixedError>>,
    ) -> bool {
        mixed_half_split_done::<R, PencilArray<Complex<R>, N, M>, YR, YC, N, M>(
            self.crew.core.boundary,
            (*self.real_split, *self.split),
            Direction::Forward,
            index,
            Some(valid),
            before,
            after,
            outcome,
        )
    }

    fn eager(&self, index: usize) -> (yes: bool) {
        is_point_to_point(&self.crew.core.transitions, Direction::Forward, index)
    }

    fn land(&self, index: usize, state: MixedR2cForwardTask<R, N, M>) -> (result: (
        MixedR2cForwardTask<R, N, M>,
        Result<(), OverlapError<MixedError>>,
    )) {
        do_mixed_half_split(
            self.crew.core.boundary,
            self.real_split,
            self.split,
            Direction::Forward,
            index,
            None,
            state,
        )
    }

    fn settle(&self, index: usize, valid: bool, state: MixedR2cForwardTask<R, N, M>) -> (result: (
        MixedR2cForwardTask<R, N, M>,
        Result<(), OverlapError<MixedError>>,
    )) {
        do_mixed_half_split(
            self.crew.core.boundary,
            self.real_split,
            self.split,
            Direction::Forward,
            index,
            Some(valid),
            state,
        )
    }
}

/// Those who do the steps of a reverse execution with overlap.
pub struct MixedR2cReverseOverlapCrew<'a, R: FftReal, FR, FX, FC, XR, XC, V, YR, YC, const N: usize, const M: usize> {
    /// Those who do the steps.
    pub crew: MixedR2cReverseCrew<'a, R, FR, FX, FC, XR, XC, V, N, M>,
    /// Exchanges real values in two parts.
    pub real_split: &'a YR,
    /// Exchanges complex values in two parts.
    pub split: &'a YC,
}

impl<'a, R: FftReal, FR: Fn(&[R], usize) -> Result<Vec<R>, LocalError>, FX: Fn(&[Complex<R>], usize) -> Result<Vec<R>, LocalError>, FC: Fn(&[Complex<R>], usize) -> Result<Vec<Complex<R>>, LocalError>, XR: Fn(usize, Passage, Load<R, N, M>) -> (Load<R, N, M>, Result<(), FftError>), XC: Fn(usize, Passage, Load<Complex<R>, N, M>) -> (Load<Complex<R>, N, M>, Result<(), FftError>), V: Inspector<R, MixedError, N, M>, YR: Fn(usize, Direction, Option<bool>, Load<R, N, M>) -> (Load<R, N, M>, Result<(), OverlapError<MixedError>>), YC: Fn(usize, Direction, Option<bool>, Load<Complex<R>, N, M>) -> (Load<Complex<R>, N, M>, Result<(), OverlapError<MixedError>>), const N: usize, const M: usize> Crew<MixedR2cReverseTask<R, N, M>, MixedError> for MixedR2cReverseOverlapCrew<'a, R, FR, FX, FC, XR, XC, V, YR, YC, N, M> {
    open spec fn able(&self) -> bool {
        &&& self.crew.able()
        &&& carries_split::<R, MixedError, YR, N, M>(*self.real_split)
        &&& carries_split::<Complex<R>, MixedError, YC, N, M>(*self.split)
    }

    open spec fn fit(&self, state: MixedR2cReverseTask<R, N, M>) -> bool {
        self.crew.fit(state)
    }

    open spec fn does(
        &self,
        step: Step,
        before: MixedR2cReverseTask<R, N, M>,
        after: MixedR2cReverseTask<R, N, M>,
        outcome: Result<(), MixedError>,
    ) -> bool {
        self.crew.does(step, before, after, outcome)
    }

    fn work(&self, step: &Step, state: MixedR2cReverseTask<R, N, M>) -> (result: (
        MixedR2cReverseTask<R, N, M>,
        Result<(), MixedError>,
    )) {
        self.crew.work(step, state)
    }
}

impl<'a, R: FftReal, FR: Fn(&[R], usize) -> Result<Vec<R>, LocalError>, FX: Fn(&[Complex<R>], usize) -> Result<Vec<R>, LocalError>, FC: Fn(&[Complex<R>], usize) -> Result<Vec<Complex<R>>, LocalError>, XR: Fn(usize, Passage, Load<R, N, M>) -> (Load<R, N, M>, Result<(), FftError>), XC: Fn(usize, Passage, Load<Complex<R>, N, M>) -> (Load<Complex<R>, N, M>, Result<(), FftError>), V: Inspector<R, MixedError, N, M>, YR: Fn(usize, Direction, Option<bool>, Load<R, N, M>) -> (Load<R, N, M>, Result<(), OverlapError<MixedError>>), YC: Fn(usize, Direction, Option<bool>, Load<Complex<R>, N, M>) -> (Load<Complex<R>, N, M>, Result<(), OverlapError<MixedError>>), const N: usize, const M: usize> OverlapCrew<MixedR2cReverseTask<R, N, M>, MixedError> for MixedR2cReverseOverlapCrew<'a, R, FR, FX, FC, XR, XC, V, YR, YC, N, M> {
    open spec fn spec_eager(&self, index: usize) -> bool {
        goes_point_to_point(self.crew.core.transitions@, self.crew.direction, index)
    }

    open spec fn lands(
        &self,
        index: usize,
        before: MixedR2cReverseTask<R, N, M>,
        after: MixedR2cReverseTask<R, N, M>,
        outcome: Result<(), OverlapError<MixedError>>,
    ) -> bool {
        mixed_half_split_done::<R, PencilArray<R, N, M>, YR, YC, N, M>(
            self.crew.core.boundary,
            (*self.real_split, *self.split),
            self.crew.direction,
            index,
            None,
            before,
            after,
            outcome,
        )
    }

    open spec fn settles(
        &self,
        index: usize,
        valid: bool,
        before: MixedR2cReverseTask<R, N, M>,
        after: MixedR2cReverseTask<R, N, M>,
        outcome: Result<(), OverlapError<MixedError>>,
    ) -> bool {
        mixed_half_split_done::<R, PencilArray<R, N, M>, YR, YC, N, M>(
            self.crew.core.boundary,
            (*self.real_split, *self.split),
            self.crew.direction,
            index,
            Some(valid),
            before,
            after,
            outcome,
        )
    }

    fn eager(&self, index: usize) -> (yes: bool) {
        is_point_to_point(&self.crew.core.transitions, self.crew.direction, index)
    }

    fn land(&self, index: usize, state: MixedR2cReverseTask<R, N, M>) -> (result: (
        MixedR2cReverseTask<R, N, M>,
        Result<(), OverlapError<MixedError>>,
    )) {
        do_mixed_half_split(
            self.crew.core.boundary,
            self.real_split,
            self.split,
            self.crew.direction,
            index,
            None,
            state,
        )
    }

    fn settle(&self, index: usize, valid: bool, state: MixedR2cReverseTask<R, N, M>) -> (result: (
        MixedR2cReverseTask<R, N, M>,
        Result<(), OverlapError<MixedError>>,
    )) {
        do_mixed_half_split(
            self.crew.core.boundary,
            self.real_split,
            self.split,
            self.crew.direction,
            index,
            Some(valid),
            state,
        )
    }
}

} // verus!
