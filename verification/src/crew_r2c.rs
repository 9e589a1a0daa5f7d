//! Those who do the steps of real-to-complex plans out of place.

use vstd::prelude::*;

use crate::array::ManyPencilArray;
use crate::array::PencilArray;
use crate::carrier::carries;
use crate::carrier::carries_split;
use crate::carrier::goes_point_to_point;
use crate::carrier::is_point_to_point;
use crate::carrier::Load;
use crate::crew::Crew;
use crate::crew::OverlapCrew;
use crate::error::FftError;
use crate::error::LocalC2cError;
use crate::error::LocalR2cError;
use crate::error::OverlapError;
use crate::error::R2cError;
use crate::half_carrier::half_carried;
use crate::half_carrier::half_carry;
use crate::half_carrier::half_part;
use crate::half_carrier::half_part_done;
use crate::half_carrier::HalfLoad;
use crate::inspect::Inspector;
use crate::kernels::ComplexStation;
use crate::kernels::ForwardCrossing;
use crate::kernels::ReverseCrossing;
use crate::layout::Direction;
use crate::lines::all_kernels;
use crate::lines::line_kernel;
use crate::perform::forward_done;
use crate::perform::reverse_done;
use crate::perform::unknown_step;
use crate::perform::HalfLens;
use crate::r2c::R2cWorkspace;
use crate::r2c::TransformPlanCore;
use crate::scalar::Complex;
use crate::scalar::FftReal;
use crate::schedule::Slot;
use crate::schedule::Step;
use crate::schedule::Work;
use crate::stage_work::half_buffers_kept;
use crate::station::CopyStation;
use crate::transition::Passage;

verus! {

/// The arrays of an out-of-place execution and the buffers of their exchanges.
pub open spec fn half_load<R: FftReal, const N: usize, const M: usize>(
    workspace: R2cWorkspace<R, N, M>,
) -> HalfLoad<R, N, M> {
    HalfLoad {
        reals: workspace.real_intermediate,
        real_buffers: workspace.real_transpose,
        complexes: workspace.intermediate,
        buffers: workspace.transpose,
    }
}

/// Everything of a workspace but the arrays and the buffers of their exchanges is as before.
pub open spec fn half_frame<R: FftReal, const N: usize, const M: usize>(
    before: R2cWorkspace<R, N, M>,
    after: R2cWorkspace<R, N, M>,
) -> bool {
    after == (R2cWorkspace {
        intermediate: after.intermediate,
        transpose: after.transpose,
        real_intermediate: after.real_intermediate,
        real_transpose: after.real_transpose,
        ..before
    })
}

/// The destination and the buffers of a forward execution.
pub type R2cForwardTask<R, const N: usize, const M: usize> = (
    PencilArray<Complex<R>, N, M>,
    R2cWorkspace<R, N, M>,
);

/// The destination and the buffers of a reverse execution.
pub type R2cReverseTask<R, const N: usize, const M: usize> = (
    PencilArray<R, N, M>,
    R2cWorkspace<R, N, M>,
);

/// Those who do the steps of a forward execution.
pub struct R2cForwardCrew<'a, R: FftReal, FX, FC, XR, XC, const N: usize, const M: usize> {
    /// The plan.
    pub core: &'a TransformPlanCore<N, M>,
    /// The kernel of the boundary.
    pub crossing: &'a FX,
    /// The kernel of each complex stage.
    pub kernels: &'a Vec<FC>,
    /// Exchanges real values.
    pub real_exchange: &'a XR,
    /// Exchanges complex values.
    pub exchange: &'a XC,
    /// Where the values come from.
    pub source: &'a PencilArray<R, N, M>,
}

impl<'a, R: FftReal, FX: Fn(&[R], usize) -> Result<Vec<Complex<R>>, LocalR2cError>, FC: Fn(&[Complex<R>], usize) -> Result<Vec<Complex<R>>, LocalC2cError>, XR: Fn(usize, Passage, Load<R, N, M>) -> (Load<R, N, M>, Result<(), FftError>), XC: Fn(usize, Passage, Load<Complex<R>, N, M>) -> (Load<Complex<R>, N, M>, Result<(), FftError>), const N: usize, const M: usize> Crew<R2cForwardTask<R, N, M>, R2cError> for R2cForwardCrew<'a, R, FX, FC, XR, XC, N, M> {
    open spec fn able(&self) -> bool {
        &&& self.core.wf()
        &&& self.kernels@.len() == self.core.stages@.len()
        &&& all_kernels::<Complex<R>, Complex<R>, LocalC2cError, FC>(self.kernels@)
        &&& line_kernel::<R, Complex<R>, LocalR2cError, FX>(*self.crossing)
        &&& carries::<R, XR, N, M>(*self.real_exchange)
        &&& carries::<Complex<R>, XC, N, M>(*self.exchange)
    }

    open spec fn fit(&self, state: R2cForwardTask<R, N, M>) -> bool {
        half_load(state.1).arrays().wf()
    }

    open spec fn does(
        &self,
        step: Step,
        before: R2cForwardTask<R, N, M>,
        after: R2cForwardTask<R, N, M>,
        outcome: Result<(), R2cError>,
    ) -> bool {
        let stage = self.core.stage_of(step);
        match step.work {
            Work::Exchange(index) => {
                &&& after.0 == before.0
                &&& half_frame(before.1, after.1)
                &&& half_carried::<R, R2cError, XR, XC, N, M>(
                    *self.real_exchange,
                    *self.exchange,
                    self.core.transitions@,
                    Direction::Forward,
                    index,
                    step.from,
                    half_load(before.1),
                    half_load(after.1),
                    outcome,
                )
            },
            _ => if stage >= self.core.stages@.len() {
                after == before && unknown_step(outcome)
            } else {
                &&& after.0.pencil == before.0.pencil
                &&& after.0.extra_shape == before.0.extra_shape
                &&& half_buffers_kept(before.1, after.1)
                &&& forward_done::<R, R2cError, CopyStation, ForwardCrossing<FX, N, M>, ComplexStation<FC, N, M>, N, M>(
                    (
                        CopyStation {  },
                        self.core.spec_forward_crossing(
                            self.crossing,
                            before.1.complex_line@.len() as usize,
                        ),
                        self.core.spec_tail_station(
                            Direction::Forward,
                            step,
                            &self.kernels@[stage],
                        ),
                    ),
                    step,
                    self.core.entries(Direction::Forward),
                    self.source.data@,
                    half_load(before.1).arrays(),
                    half_load(after.1).arrays(),
                    (before.0.data@, after.0.data@),
                    (HalfLens {
                        crossing: match before.1.real_source_line {
                            Some(line) => line@.len() as usize,
                            None => 0,
                        },
                        reals: before.1.real_line@.len() as usize,
                        complexes: before.1.complex_strided_line@.len() as usize,
                    }),
                    outcome,
                )
            },
        }
    }

    fn work(&self, step: &Step, state: R2cForwardTask<R, N, M>) -> (result: (
        R2cForwardTask<R, N, M>,
        Result<(), R2cError>,
    )) {
        let (mut destination, mut workspace): R2cForwardTask<R, N, M> = state;
        let stage: usize = match step.work {
            Work::Exchange(index) => {
                let load: HalfLoad<R, N, M> = HalfLoad {
                    reals: workspace.real_intermediate,
                    real_buffers: workspace.real_transpose,
                    complexes: workspace.intermediate,
                    buffers: workspace.transpose,
                };
                let (left, outcome): (HalfLoad<R, N, M>, Result<(), R2cError>) = half_carry(
                    self.real_exchange,
                    self.exchange,
                    &self.core.transitions,
                    Direction::Forward,
                    index,
                    step.from,
                    load,
                );
                workspace.real_intermediate = left.reals;
                workspace.real_transpose = left.real_buffers;
                workspace.intermediate = left.complexes;
                workspace.transpose = left.buffers;
                return ((destination, workspace), outcome);
            },
            Work::Kernel(stage) => stage,
            _ => 0,
        };
        if stage >= self.core.stages.len() {
            return ((destination, workspace), Err(R2cError::Fft(FftError::PreparationFailed)));
        }
        let outcome: Result<(), R2cError> = self.core.perform_forward(
            step,
            self.crossing,
            &self.kernels[stage],
            self.source,
            &mut destination,
            &mut workspace,
        );
        ((destination, workspace), outcome)
    }
}

/// Those who do the steps of a reverse execution.
pub struct R2cReverseCrew<'a, R: FftReal, FX, FC, XR, XC, V, const N: usize, const M: usize> {
    /// The plan.
    pub core: &'a TransformPlanCore<N, M>,
    /// Which way the execution goes.
    pub direction: Direction,
    /// The kernel of the boundary.
    pub crossing: &'a FX,
    /// The kernel of each complex stage.
    pub kernels: &'a Vec<FC>,
    /// Exchanges real values.
    pub real_exchange: &'a XR,
    /// Exchanges complex values.
    pub exchange: &'a XC,
    /// Checks and clears the endpoint planes.
    pub inspector: &'a V,
    /// Where the values come from.
    pub source: &'a PencilArray<Complex<R>, N, M>,
}

impl<'a, R: FftReal, FX: Fn(&[Complex<R>], usize) -> Result<Vec<R>, LocalR2cError>, FC: Fn(&[Complex<R>], usize) -> Result<Vec<Complex<R>>, LocalC2cError>, XR: Fn(usize, Passage, Load<R, N, M>) -> (Load<R, N, M>, Result<(), FftError>), XC: Fn(usize, Passage, Load<Complex<R>, N, M>) -> (Load<Complex<R>, N, M>, Result<(), FftError>), V: Inspector<R, R2cError, N, M>, const N: usize, const M: usize> Crew<R2cReverseTask<R, N, M>, R2cError> for R2cReverseCrew<'a, R, FX, FC, XR, XC, V, N, M> {
    open spec fn able(&self) -> bool {
        &&& self.core.wf()
        &&& self.kernels@.len() == self.core.stages@.len()
        &&& all_kernels::<Complex<R>, Complex<R>, LocalC2cError, FC>(self.kernels@)
        &&& line_kernel::<Complex<R>, R, LocalR2cError, FX>(*self.crossing)
        &&& carries::<R, XR, N, M>(*self.real_exchange)
        &&& carries::<Complex<R>, XC, N, M>(*self.exchange)
        &&& self.inspector.able()
    }

    open spec fn fit(&self, state: R2cReverseTask<R, N, M>) -> bool {
        &&& half_load(state.1).arrays().wf()
        &&& forall|i: int|
            0 <= i < state.1.intermediate.pencils@.len() ==> self.inspector.admits(
                #[trigger] state.1.intermediate.pencils@[i],
            )
    }

    open spec fn does(
        &self,
        step: Step,
        before: R2cReverseTask<R, N, M>,
        after: R2cReverseTask<R, N, M>,
        outcome: Result<(), R2cError>,
    ) -> bool {
        let stage = self.core.stage_of(step);
        match step.work {
            Work::Exchange(index) => {
                &&& after.0 == before.0
                &&& half_frame(before.1, after.1)
                &&& half_carried::<R, R2cError, XR, XC, N, M>(
                    *self.real_exchange,
                    *self.exchange,
                    self.core.transitions@,
                    self.direction,
                    index,
                    step.from,
                    half_load(before.1),
                    half_load(after.1),
                    outcome,
                )
            },
            Work::Validate => {
                &&& after == before
                &&& self.inspector.finds(before.1.intermediate, outcome)
            },
            Work::Clear => {
                &&& after.0 == before.0
                &&& after.1 == (R2cWorkspace { intermediate: after.1.intermediate, ..before.1 })
                &&& self.inspector.clears(before.1.intermediate, after.1.intermediate, outcome)
            },
            _ => if stage >= self.core.stages@.len() {
                after == before && unknown_step(outcome)
            } else {
                &&& after.0.pencil == before.0.pencil
                &&& after.0.extra_shape == before.0.extra_shape
                &&& half_buffers_kept(before.1, after.1)
                &&& reverse_done::<R, R2cError, CopyStation, ReverseCrossing<FX, N, M>, ComplexStation<FC, N, M>, N, M>(
                    (
                        CopyStation {  },
                        self.core.spec_reverse_crossing(
                            self.crossing,
                            before.1.real_line@.len() as usize,
                        ),
                        self.core.spec_tail_station(
                            Direction::Inverse,
                            step,
                            &self.kernels@[stage],
                        ),
                    ),
                    step,
                    self.core.entries(Direction::Inverse),
                    self.source.data@,
                    half_load(before.1).arrays(),
                    half_load(after.1).arrays(),
                    (before.0.data@, after.0.data@),
                    (HalfLens {
                    crossing: before.1.complex_strided_line@.len() as usize,
                    reals: before.1.real_line@.len() as usize,
                    complexes: before.1.complex_strided_line@.len() as usize,
                }),
                    outcome,
                )
            },
        }
    }

    fn work(&self, step: &Step, state: R2cReverseTask<R, N, M>) -> (result: (
        R2cReverseTask<R, N, M>,
        Result<(), R2cError>,
    )) {
        let (mut destination, mut workspace): R2cReverseTask<R, N, M> = state;
        let stage: usize = match step.work {
            Work::Exchange(index) => {
                let load: HalfLoad<R, N, M> = HalfLoad {
                    reals: workspace.real_intermediate,
                    real_buffers: workspace.real_transpose,
                    complexes: workspace.intermediate,
                    buffers: workspace.transpose,
                };
                let (left, outcome): (HalfLoad<R, N, M>, Result<(), R2cError>) = half_carry(
                    self.real_exchange,
                    self.exchange,
                    &self.core.transitions,
                    self.direction,
                    index,
                    step.from,
                    load,
                );
                workspace.real_intermediate = left.reals;
                workspace.real_transpose = left.real_buffers;
                workspace.intermediate = left.complexes;
                workspace.transpose = left.buffers;
                return ((destination, workspace), outcome);
            },
            Work::Validate => {
                let outcome: Result<(), R2cError> = self.inspector.inspect(&workspace.intermediate);
                return ((destination, workspace), outcome);
            },
            Work::Clear => {
                let outcome: Result<(), R2cError> = self.inspector.clear(&mut workspace.intermediate);
                return ((destination, workspace), outcome);
            },
            Work::Kernel(stage) => stage,
            _ => 0,
        };
        if stage >= self.core.stages.len() {
            return ((destination, workspace), Err(R2cError::Fft(FftError::PreparationFailed)));
        }
        let outcome: Result<(), R2cError> = self.core.perform_reverse(
            step,
            self.crossing,
            &self.kernels[stage],
            self.source,
            &mut destination,
            &mut workspace,
        );
        ((destination, workspace), outcome)
    }
}

/// A workspace whose array in `at` can no longer be read.
pub open spec fn spoiled<R: FftReal, const N: usize, const M: usize>(
    at: Slot,
    workspace: R2cWorkspace<R, N, M>,
) -> R2cWorkspace<R, N, M> {
    match at {
        Slot::Real => R2cWorkspace {
            real_intermediate: match workspace.real_intermediate {
                Some(array) => Some(ManyPencilArray { active: None, ..array }),
                None => None,
            },
            ..workspace
        },
        Slot::Complex => R2cWorkspace {
            intermediate: ManyPencilArray { active: None, ..workspace.intermediate },
            ..workspace
        },
        _ => workspace,
    }
}

/// The array that the boundary writes inside the exchange `index`, if it works inside it: an
/// execution overwrites it as long as the exchange lasts.
pub open spec fn overwritten_inside(boundary: usize, forward: bool, index: usize) -> Slot {
    if boundary == 0 {
        Slot::Destination
    } else if forward && index + 1 == boundary {
        Slot::Complex
    } else if !forward && index == boundary {
        Slot::Real
    } else {
        Slot::Destination
    }
}

/// What a part of the exchange `index` comes to: those before the boundary move real values. Where
/// it fails, what the boundary writes inside it can no longer be read.
pub open spec fn half_split_done<R: FftReal, A, YR: Fn(usize, Direction, Option<bool>, Load<R, N, M>) -> (Load<R, N, M>, Result<(), OverlapError<R2cError>>), YC: Fn(usize, Direction, Option<bool>, Load<Complex<R>, N, M>) -> (Load<Complex<R>, N, M>, Result<(), OverlapError<R2cError>>), const N: usize, const M: usize>(
    boundary: usize,
    forward: bool,
    splits: (YR, YC),
    direction: Direction,
    index: usize,
    valid: Option<bool>,
    before: (A, R2cWorkspace<R, N, M>),
    after: (A, R2cWorkspace<R, N, M>),
    outcome: Result<(), OverlapError<R2cError>>,
) -> bool {
    &&& after.0 == before.0
    &&& if outcome is Ok && valid != Some(false) {
        &&& half_frame(before.1, after.1)
        &&& half_part_done::<R, R2cError, YR, YC, N, M>(
            splits.0,
            splits.1,
            direction,
            index,
            if index < boundary {
                Slot::Real
            } else {
                Slot::Complex
            },
            valid,
            half_load(before.1),
            half_load(after.1),
            outcome,
        )
    } else {
        exists|left: R2cWorkspace<R, N, M>|
            {
                &&& #[trigger] half_frame(before.1, left)
                &&& half_part_done::<R, R2cError, YR, YC, N, M>(
                    splits.0,
                    splits.1,
                    direction,
                    index,
                    if index < boundary {
                        Slot::Real
                    } else {
                        Slot::Complex
                    },
                    valid,
                    half_load(before.1),
                    half_load(left),
                    outcome,
                )
                &&& after.1 == spoiled(overwritten_inside(boundary, forward, index), left)
            }
    }
}

fn do_half_split<R: FftReal, A, YR: Fn(usize, Direction, Option<bool>, Load<R, N, M>) -> (Load<R, N, M>, Result<(), OverlapError<R2cError>>), YC: Fn(usize, Direction, Option<bool>, Load<Complex<R>, N, M>) -> (Load<Complex<R>, N, M>, Result<(), OverlapError<R2cError>>), const N: usize, const M: usize>(
    boundary: usize,
    forward: bool,
    real_split: &YR,
    split: &YC,
    direction: Direction,
    index: usize,
    valid: Option<bool>,
    state: (A, R2cWorkspace<R, N, M>),
) -> (result: ((A, R2cWorkspace<R, N, M>), Result<(), OverlapError<R2cError>>))
    requires
        carries_split::<R, R2cError, YR, N, M>(*real_split),
        carries_split::<Complex<R>, R2cError, YC, N, M>(*split),
    ensures
        result.1 is Ok && valid != Some(false) ==> half_load(result.0.1).serves(half_load(state.1)),
        half_split_done::<R, A, YR, YC, N, M>(
            boundary,
            forward,
            (*real_split, *split),
            direction,
            index,
            valid,
            state,
            result.0,
            result.1,
        ),
{
    let (destination, mut workspace): (A, R2cWorkspace<R, N, M>) = state;
    let load: HalfLoad<R, N, M> = HalfLoad {
        reals: workspace.real_intermediate,
        real_buffers: workspace.real_transpose,
        complexes: workspace.intermediate,
        buffers: workspace.transpose,
    };
    let at: Slot = if index < boundary {
        Slot::Real
    } else {
        Slot::Complex
    };
    let (left, outcome): (HalfLoad<R, N, M>, Result<(), OverlapError<R2cError>>) = half_part(
        real_split,
        split,
        direction,
        index,
        at,
        valid,
        load,
    );
    workspace.real_intermediate = left.reals;
    workspace.real_transpose = left.real_buffers;
    workspace.intermediate = left.complexes;
    workspace.transpose = left.buffers;
    let ghost moved = workspace;
    assert(half_frame(state.1, moved));
    let worked: bool = match valid {
        Some(valid) => valid,
        None => true,
    };
    if outcome.is_err() || !worked {
        if boundary > 0 && forward && index == boundary - 1 {
            workspace.intermediate.active = None;
        }
        if boundary > 0 && !forward && index == boundary {
            match workspace.real_intermediate.take() {
                Some(mut array) => {
                    array.active = None;
                    workspace.real_intermediate = Some(array);
                },
                None => {},
            }
        }
        assert(workspace == spoiled(overwritten_inside(boundary, forward, index), moved));
    }
    ((destination, workspace), outcome)
}

/// Those who do the steps of a forward execution with overlap.
pub struct R2cForwardOverlapCrew<'a, R: FftReal, FX, FC, XR, XC, YR, YC, const N: usize, const M: usize> {
    /// Those who do the steps.
    pub crew: R2cForwardCrew<'a, R, FX, FC, XR, XC, N, M>,
    /// Exchanges real values in two parts.
    pub real_split: &'a YR,
    /// Exchanges complex values in two parts.
    pub split: &'a YC,
}

impl<'a, R: FftReal, FX: Fn(&[R], usize) -> Result<Vec<Complex<R>>, LocalR2cError>, FC: Fn(&[Complex<R>], usize) -> Result<Vec<Complex<R>>, LocalC2cError>, XR: Fn(usize, Passage, Load<R, N, M>) -> (Load<R, N, M>, Result<(), FftError>), XC: Fn(usize, Passage, Load<Complex<R>, N, M>) -> (Load<Complex<R>, N, M>, Result<(), FftError>), YR: Fn(usize, Direction, Option<bool>, Load<R, N, M>) -> (Load<R, N, M>, Result<(), OverlapError<R2cError>>), YC: Fn(usize, Direction, Option<bool>, Load<Complex<R>, N, M>) -> (Load<Complex<R>, N, M>, Result<(), OverlapError<R2cError>>), const N: usize, const M: usize> Crew<R2cForwardTask<R, N, M>, R2cError> for R2cForwardOverlapCrew<'a, R, FX, FC, XR, XC, YR, YC, N, M> {
    open spec fn able(&self) -> bool {
        &&& self.crew.able()
        &&& carries_split::<R, R2cError, YR, N, M>(*self.real_split)
        &&& carries_split::<Complex<R>, R2cError, YC, N, M>(*self.split)
    }

    open spec fn fit(&self, state: R2cForwardTask<R, N, M>) -> bool {
        self.crew.fit(state)
    }

    open spec fn does(
        &self,
        step: Step,
        before: R2cForwardTask<R, N, M>,
        after: R2cForwardTask<R, N, M>,
        outcome: Result<(), R2cError>,
    ) -> bool {
        self.crew.does(step, before, after, outcome)
    }

    fn work(&self, step: &Step, state: R2cForwardTask<R, N, M>) -> (result: (
        R2cForwardTask<R, N, M>,
        Result<(), R2cError>,
    )) {
        self.crew.work(step, state)
    }
}

impl<'a, R: FftReal, FX: Fn(&[R], usize) -> Result<Vec<Complex<R>>, LocalR2cError>, FC: Fn(&[Complex<R>], usize) -> Result<Vec<Complex<R>>, LocalC2cError>, XR: Fn(usize, Passage, Load<R, N, M>) -> (Load<R, N, M>, Result<(), FftError>), XC: Fn(usize, Passage, Load<Complex<R>, N, M>) -> (Load<Complex<R>, N, M>, Result<(), FftError>), YR: Fn(usize, Direction, Option<bool>, Load<R, N, M>) -> (Load<R, N, M>, Result<(), OverlapError<R2cError>>), YC: Fn(usize, Direction, Option<bool>, Load<Complex<R>, N, M>) -> (Load<Complex<R>, N, M>, Result<(), OverlapError<R2cError>>), const N: usize, const M: usize> OverlapCrew<R2cForwardTask<R, N, M>, R2cError> for R2cForwardOverlapCrew<'a, R, FX, FC, XR, XC, YR, YC, N, M> {
    open spec fn spec_eager(&self, index: usize) -> bool {
        goes_point_to_point(self.crew.core.transitions@, Direction::Forward, index)
    }

    open spec fn lands(
        &self,
        index: usize,
        before: R2cForwardTask<R, N, M>,
        after: R2cForwardTask<R, N, M>,
        outcome: Result<(), OverlapError<R2cError>>,
    ) -> bool {
        half_split_done::<R, PencilArray<Complex<R>, N, M>, YR, YC, N, M>(
            self.crew.core.boundary,
            true,
            (*self.real_split, *self.split),
            Direction::Forward,
            index,
            None,
            before,
            after,
            outcome,
        )
    }

    open spec fn settles(
        &self,
        index: usize,
        valid: bool,
        before: R2cForwardTask<R, N, M>,
        after: R2cForwardTask<R, N, M>,
        outcome: Result<(), OverlapError<R2cError>>,
    ) -> bool {
        half_split_done::<R, PencilArray<Complex<R>, N, M>, YR, YC, N, M>(
            self.crew.core.boundary,
            true,
            (*self.real_split, *self.split),
            Direction::Forward,
            index,
            Some(valid),
            before,
            after,
            outcome,
        )
    }

    fn eager(&self, index: usize) -> (yes: bool) {
        is_point_to_point(&self.crew.core.transitions, Direction::Forward, index)
    }

    fn land(&self, index: usize, state: R2cForwardTask<R, N, M>) -> (result: (
        R2cForwardTask<R, N, M>,
        Result<(), OverlapError<R2cError>>,
    )) {
        do_half_split(
            self.crew.core.boundary,
            true,
            self.real_split,
            self.split,
            Direction::Forward,
            index,
            None,
            state,
        )
    }

    fn settle(&self, index: usize, valid: bool, state: R2cForwardTask<R, N, M>) -> (result: (
        R2cForwardTask<R, N, M>,
        Result<(), OverlapError<R2cError>>,
    )) {
        do_half_split(
            self.crew.core.boundary,
            true,
            self.real_split,
            self.split,
            Direction::Forward,
            index,
            Some(valid),
            state,
        )
    }
}

/// Those who do the steps of a reverse execution with overlap.
pub struct R2cReverseOverlapCrew<'a, R: FftReal, FX, FC, XR, XC, V, YR, YC, const N: usize, const M: usize> {
    /// Those who do the steps.
    pub crew: R2cReverseCrew<'a, R, FX, FC, XR, XC, V, N, M>,
    /// Exchanges real values in two parts.
    pub real_split: &'a YR,
    /// Exchanges complex values in two parts.
    pub split: &'a YC,
}

impl<'a, R: FftReal, FX: Fn(&[Complex<R>], usize) -> Result<Vec<R>, LocalR2cError>, FC: Fn(&[Complex<R>], usize) -> Result<Vec<Complex<R>>, LocalC2cError>, XR: Fn(usize, Passage, Load<R, N, M>) -> (Load<R, N, M>, Result<(), FftError>), XC: Fn(usize, Passage, Load<Complex<R>, N, M>) -> (Load<Complex<R>, N, M>, Result<(), FftError>), V: Inspector<R, R2cError, N, M>, YR: Fn(usize, Direction, Option<bool>, Load<R, N, M>) -> (Load<R, N, M>, Result<(), OverlapError<R2cError>>), YC: Fn(usize, Direction, Option<bool>, Load<Complex<R>, N, M>) -> (Load<Complex<R>, N, M>, Result<(), OverlapError<R2cError>>), const N: usize, const M: usize> Crew<R2cReverseTask<R, N, M>, R2cError> for R2cReverseOverlapCrew<'a, R, FX, FC, XR, XC, V, YR, YC, N, M> {
    open spec fn able(&self) -> bool {
        &&& self.crew.able()
        &&& carries_split::<R, R2cError, YR, N, M>(*self.real_split)
        &&& carries_split::<Complex<R>, R2cError, YC, N, M>(*self.split)
    }

    open spec fn fit(&self, state: R2cReverseTask<R, N, M>) -> bool {
        self.crew.fit(state)
    }

    open spec fn does(
        &self,
        step: Step,
        before: R2cReverseTask<R, N, M>,
        after: R2cReverseTask<R, N, M>,
        outcome: Result<(), R2cError>,
    ) -> bool {
        self.crew.does(step, before, after, outcome)
    }

    fn work(&self, step: &Step, state: R2cReverseTask<R, N, M>) -> (result: (
        R2cReverseTask<R, N, M>,
        Result<(), R2cError>,
    )) {
        self.crew.work(step, state)
    }
}

impl<'a, R: FftReal, FX: Fn(&[Complex<R>], usize) -> Result<Vec<R>, LocalR2cError>, FC: Fn(&[Complex<R>], usize) -> Result<Vec<Complex<R>>, LocalC2cError>, XR: Fn(usize, Passage, Load<R, N, M>) -> (Load<R, N, M>, Result<(), FftError>), XC: Fn(usize, Passage, Load<Complex<R>, N, M>) -> (Load<Complex<R>, N, M>, Result<(), FftError>), V: Inspector<R, R2cError, N, M>, YR: Fn(usize, Direction, Option<bool>, Load<R, N, M>) -> (Load<R, N, M>, Result<(), OverlapError<R2cError>>), YC: Fn(usize, Direction, Option<bool>, Load<Complex<R>, N, M>) -> (Load<Complex<R>, N, M>, Result<(), OverlapError<R2cError>>), const N: usize, const M: usize> OverlapCrew<R2cReverseTask<R, N, M>, R2cError> for R2cReverseOverlapCrew<'a, R, FX, FC, XR, XC, V, YR, YC, N, M> {
    open spec fn spec_eager(&self, index: usize) -> bool {
        goes_point_to_point(self.crew.core.transitions@, self.crew.direction, index)
    }

    open spec fn lands(
        &self,
        index: usize,
        before: R2cReverseTask<R, N, M>,
        after: R2cReverseTask<R, N, M>,
        outcome: Result<(), OverlapError<R2cError>>,
    ) -> bool {
        half_split_done::<R, PencilArray<R, N, M>, YR, YC, N, M>(
            self.crew.core.boundary,
            false,
            (*self.real_split, *self.split),
            self.crew.direction,
            index,
            None,
            before,
            after,
            outcome,
        )
    }

    open spec fn settles(
        &self,
        index: usize,
        valid: bool,
        before: R2cReverseTask<R, N, M>,
        after: R2cReverseTask<R, N, M>,
        outcome: Result<(), OverlapError<R2cError>>,
    ) -> bool {
        half_split_done::<R, PencilArray<R, N, M>, YR, YC, N, M>(
            self.crew.core.boundary,
            false,
            (*self.real_split, *self.split),
            self.crew.direction,
            index,
            Some(valid),
            before,
            after,
            outcome,
        )
    }

    fn eager(&self, index: usize) -> (yes: bool) {
        is_point_to_point(&self.crew.core.transitions, self.crew.direction, index)
    }

    fn land(&self, index: usize, state: R2cReverseTask<R, N, M>) -> (result: (
        R2cReverseTask<R, N, M>,
        Result<(), OverlapError<R2cError>>,
    )) {
        do_half_split(
            self.crew.core.boundary,
            false,
            self.real_split,
            self.split,
            self.crew.direction,
            index,
            None,
            state,
        )
    }

    fn settle(&self, index: usize, valid: bool, state: R2cReverseTask<R, N, M>) -> (result: (
        R2cReverseTask<R, N, M>,
        Result<(), OverlapError<R2cError>>,
    )) {
        do_half_split(
            self.crew.core.boundary,
            false,
            self.real_split,
            self.split,
            self.crew.direction,
            index,
            Some(valid),
            state,
        )
    }
}

} // verus!
