//! When an execution of a mixed real-to-complex plan is owed to succeed.

use vstd::prelude::*;

use crate::carrier::Load;
use crate::course::Place;
use crate::course::checks_pass;
use crate::course::is_check;
use crate::course::keeps_course;
use crate::course::keeps_course_checked;
use crate::course::led;
use crate::course::lemma_checked_course_holds;
use crate::course::lemma_course_holds;
use crate::course::lemma_overlap_checked_course_holds;
use crate::course::lemma_overlap_course_holds;
use crate::course::next_place;
use crate::course::on_course;
use crate::course::reached_inside;
use crate::course::stays_outside;
use crate::crew::Crew;
use crate::crew::InTurn;
use crate::crew::OverlapCrew;
use crate::crew::Overlapped;
use crate::crew_mixed_r2c::MixedR2cForwardCrew;
use crate::crew_mixed_r2c::MixedR2cForwardOverlapCrew;
use crate::crew_mixed_r2c::MixedR2cForwardTask;
use crate::crew_mixed_r2c::MixedR2cReverseCrew;
use crate::crew_mixed_r2c::MixedR2cReverseOverlapCrew;
use crate::crew_mixed_r2c::MixedR2cReverseTask;
use crate::crew_mixed_r2c::mixed_half_load;
use crate::error::FftError;
use crate::error::FftOverlapError;
use crate::error::MixedError;
use crate::error::OverlapError;
use crate::holds::accepts;
use crate::holds::in_order;
use crate::holds::leads_on;
use crate::holds::lemma_sweep_holds;
use crate::holds::parts_lead_on;
use crate::holds::registered;
use crate::holds::station_holds;
use crate::holds::sweep_fits;
use crate::holds_half::boundary_resizes;
use crate::holds_half::complex_elements;
use crate::holds_half::half_entries;
use crate::holds_half::half_lies;
use crate::holds_half::lemma_forward_holds;
use crate::holds_half::lemma_half_carried_holds;
use crate::holds_half::lemma_half_part_lands;
use crate::holds_half::lemma_half_part_settles;
use crate::holds_half::lemma_reverse_holds;
use crate::holds_half::real_elements;
use crate::inspect::Inspector;
use crate::kernels::MixedComplexStation;
use crate::kernels::MixedForwardCrossing;
use crate::kernels::MixedRealStation;
use crate::kernels::MixedReverseCrossing;
use crate::layout::Direction;
use crate::local::MixedComplexLocal;
use crate::local::MixedR2cStageLocal;
use crate::local::MixedRealLocal;
use crate::mixed_r2c::MixedR2cCore;
use crate::mixed_r2c::MixedR2cWorkspace;
use crate::perform::HalfLens;
use crate::registry::inputs_of;
use crate::registry::outputs_of;
use crate::round_shared::clearing_stays;
use crate::run::Launch;
use crate::run::OverlapLaunch;
use crate::run::executed;
use crate::run::executed_overlapped;
use crate::run::steps_run;
use crate::scalar::Complex;
use crate::scalar::FftReal;
use crate::schedule::Mode;
use crate::schedule::Step;
use crate::schedule::Work;
use crate::stages::LocalError;
use crate::stages::as_mixed_sweep;
use crate::stages::boundary_forward_lens;
use crate::stages::boundary_reverse_lens;
use crate::stages::complex_lens;
use crate::stages::mixed_r2r_lens;
use crate::station::Station;
use crate::success::law_execution_succeeds;
use crate::success::law_overlapped_execution_succeeds;
use crate::success::ready;
use crate::success::ready_overlapped;
use crate::transition::Passage;
use crate::walk::encloses;
use crate::walk::ran_overlapped;

verus! {

/// Elements of the line buffers of a forward execution, and of the one for a result line.
pub open spec fn mixed_r2c_lens_there<R: FftReal, const N: usize, const M: usize>(
    workspace: MixedR2cWorkspace<R, N, M>,
) -> (HalfLens, usize) {
    let lens = HalfLens {
        crossing: workspace.buffers.real_source_line@.len() as usize,
        reals: workspace.buffers.real_strided_line@.len() as usize,
        complexes: workspace.buffers.complex_strided_line@.len() as usize,
    };
    (lens, workspace.buffers.complex_line@.len() as usize)
}

/// Elements of the line buffers of a reverse execution, and of the one for a result line.
pub open spec fn mixed_r2c_lens_home<R: FftReal, const N: usize, const M: usize>(
    workspace: MixedR2cWorkspace<R, N, M>,
) -> (HalfLens, usize) {
    let lens = HalfLens {
        crossing: workspace.buffers.complex_source_line@.len() as usize,
        reals: workspace.buffers.real_strided_line@.len() as usize,
        complexes: workspace.buffers.complex_strided_line@.len() as usize,
    };
    (lens, workspace.buffers.real_line@.len() as usize)
}

impl<const N: usize, const M: usize> MixedR2cCore<N, M> {
    /// Elements of this process in front of a stage.
    pub open spec fn elements_before(&self, stage: int) -> int {
        real_elements(self.stages@, self.extra_shape.element_count as int, stage)
    }

    /// Elements of this process behind a stage.
    pub open spec fn elements_behind(&self, stage: int) -> int {
        complex_elements(self.stages@, self.extra_shape.element_count as int, stage)
    }

    /// The lines of a complex stage divide its elements, and a buffer of `line` elements holds one.
    pub open spec fn tail_fits(&self, stage: int, line: usize) -> bool {
        let stride = self.stages@[stage].output.stride_along(self.stages@[stage].axis as int);
        let len = self.elements_behind(stage);
        match self.locals@[stage] {
            MixedR2cStageLocal::Complex(MixedComplexLocal::Fft(plan)) => sweep_fits(
                stride,
                len,
                len,
                line,
                complex_lens(plan, line),
            ),
            MixedR2cStageLocal::Complex(MixedComplexLocal::R2r(plan)) => sweep_fits(
                stride,
                len,
                len,
                line,
                mixed_r2r_lens(plan.plan(), line),
            ),
            _ => true,
        }
    }

    /// The lines of a real stage divide its elements, and a buffer of `line` elements holds one.
    pub open spec fn prefix_fits(&self, stage: int, line: usize) -> bool {
        let stride = self.stages@[stage].output.stride_along(self.stages@[stage].axis as int);
        let len = self.elements_before(stage);
        match self.locals@[stage] {
            MixedR2cStageLocal::Real(MixedRealLocal::R2r(plan)) => sweep_fits(
                stride,
                len,
                len,
                line,
                mixed_r2r_lens(plan.plan(), line),
            ),
            MixedR2cStageLocal::Real(MixedRealLocal::Rfft(_)) => false,
            _ => true,
        }
    }

    /// The lines of each stage divide its elements, and the line buffers hold one, on the way there.
    pub open spec fn lines_fit_there(&self, lens: HalfLens, result_line: usize) -> bool {
        let boundary = self.stages@[self.boundary as int];
        &&& forall|stage: int|
            0 <= stage < self.boundary ==> #[trigger] self.prefix_fits(stage, lens.reals)
        &&& sweep_fits(
            boundary.input.stride_along(boundary.axis as int),
            self.elements_before(self.boundary as int),
            self.elements_behind(self.boundary as int),
            lens.crossing,
            boundary_forward_lens(self.plan(), result_line),
        )
        &&& forall|stage: int|
            self.boundary < stage < self.stages@.len() ==> #[trigger] self.tail_fits(
                stage,
                lens.complexes,
            )
    }

    /// The lines of each stage divide its elements, and the line buffers hold one, on the way home.
    pub open spec fn lines_fit_home(&self, lens: HalfLens, result_line: usize) -> bool {
        let boundary = self.stages@[self.boundary as int];
        &&& forall|stage: int|
            0 <= stage < self.boundary ==> #[trigger] self.prefix_fits(stage, lens.reals)
        &&& sweep_fits(
            boundary.output.stride_along(boundary.axis as int),
            self.elements_behind(self.boundary as int),
            self.elements_before(self.boundary as int),
            lens.crossing,
            boundary_reverse_lens(self.plan(), result_line),
        )
        &&& forall|stage: int|
            self.boundary < stage < self.stages@.len() ==> #[trigger] self.tail_fits(
                stage,
                lens.complexes,
            )
    }

    /// The kernel of a complex stage rejects no line of the stage's.
    pub open spec fn tail_accepts<R: FftReal, FC: Fn(&[Complex<R>], usize) -> Result<Vec<Complex<R>>, LocalError>>(&self, stage: int, kernel: FC) -> bool {
        match self.locals@[stage] {
            MixedR2cStageLocal::Complex(MixedComplexLocal::Fft(plan)) => accepts::<
                Complex<R>,
                Complex<R>,
                LocalError,
                FC,
            >(kernel, plan.line_len as int, plan.line_len as int),
            MixedR2cStageLocal::Complex(MixedComplexLocal::R2r(plan)) => accepts::<
                Complex<R>,
                Complex<R>,
                LocalError,
                FC,
            >(kernel, plan.plan().line_len as int, plan.plan().line_len as int),
            _ => true,
        }
    }

    /// No kernel of a complex stage rejects a line of its stage.
    pub open spec fn tails_accept<R: FftReal, FC: Fn(&[Complex<R>], usize) -> Result<Vec<Complex<R>>, LocalError>>(&self, kernels: Seq<FC>) -> bool {
        forall|stage: int|
            self.boundary < stage < kernels.len() ==> self.tail_accepts::<R, FC>(
                stage,
                #[trigger] kernels[stage],
            )
    }

    /// The kernel of a real stage rejects no line of the stage's.
    pub open spec fn prefix_accepts<R: FftReal, FR: Fn(&[R], usize) -> Result<Vec<R>, LocalError>>(&self, stage: int, kernel: FR) -> bool {
        match self.locals@[stage] {
            MixedR2cStageLocal::Real(MixedRealLocal::R2r(plan)) => accepts::<R, R, LocalError, FR>(
                kernel,
                plan.plan().line_len as int,
                plan.plan().line_len as int,
            ),
            _ => true,
        }
    }

    /// No kernel of a real stage rejects a line of its stage.
    pub open spec fn prefixes_accept<R: FftReal, FR: Fn(&[R], usize) -> Result<Vec<R>, LocalError>>(&self, kernels: Seq<FR>) -> bool {
        forall|stage: int|
            0 <= stage < self.boundary ==> self.prefix_accepts::<R, FR>(stage, #[trigger] kernels[stage])
    }

    /// A complex stage does not fail where the kernel rejects no line.
    pub proof fn lemma_tail_holds<R: FftReal, FC: Fn(&[Complex<R>], usize) -> Result<Vec<Complex<R>>, LocalError>>(
        &self,
        direction: Direction,
        kernel: &FC,
        step: Step,
        line: usize,
    )
        requires
            self.wf(),
            self.tail_accepts::<R, FC>(step.work->Kernel_0 as int, *kernel),
            boundary_resizes(self.stages@, self.boundary as int),
            step.work is Kernel,
            self.boundary < step.work->Kernel_0 < self.stages@.len(),
            self.tail_fits(step.work->Kernel_0 as int, line),
        ensures
            station_holds::<Complex<R>, Complex<R>, MixedError, MixedComplexStation<FC, N, M>>(
                self.spec_tail_station(direction, step, kernel),
                self.elements_behind(step.work->Kernel_0 as int),
                self.elements_behind(step.work->Kernel_0 as int),
                line,
            ),
    {
        let stage = step.work->Kernel_0 as int;
        let station = self.spec_tail_station(direction, step, kernel);
        let len = self.elements_behind(stage);
        assert(self.stages@[stage].input == self.stages@[stage].output);
        let stride = station.pencil.stride_along(station.axis as int);
        assert forall|
            source: Seq<Complex<R>>,
            original: Seq<Complex<R>>,
            result: Seq<Complex<R>>,
            outcome: Result<(), MixedError>,
        |
            #[trigger]
            station.leaves(source, original, result, line, outcome) && source.len() == len
                && original.len() == len implies outcome is Ok by {
            match station.local {
                MixedComplexLocal::Identity => {},
                MixedComplexLocal::Fft(plan) => {
                    lemma_sweep_holds::<Complex<R>, Complex<R>, LocalError, FC>(
                        *kernel,
                        stride,
                        source,
                        original,
                        result,
                        line,
                        complex_lens(plan, line),
                        as_mixed_sweep(outcome),
                    );
                },
                MixedComplexLocal::R2r(plan) => {
                    lemma_sweep_holds::<Complex<R>, Complex<R>, LocalError, FC>(
                        *kernel,
                        stride,
                        source,
                        original,
                        result,
                        line,
                        mixed_r2r_lens(plan.plan(), line),
                        as_mixed_sweep(outcome),
                    );
                },
            }
        }
    }

    /// A real stage does not fail where the kernel rejects no line.
    pub proof fn lemma_prefix_holds<R: FftReal, FR: Fn(&[R], usize) -> Result<Vec<R>, LocalError>>(
        &self,
        direction: Direction,
        kernel: &FR,
        step: Step,
        line: usize,
    )
        requires
            self.wf(),
            self.prefix_accepts::<R, FR>(step.work->Kernel_0 as int, *kernel),
            boundary_resizes(self.stages@, self.boundary as int),
            step.work is Kernel,
            step.work->Kernel_0 < self.boundary,
            self.prefix_fits(step.work->Kernel_0 as int, line),
        ensures
            station_holds::<R, R, MixedError, MixedRealStation<FR, N, M>>(
                self.spec_prefix_station(direction, step, kernel),
                self.elements_before(step.work->Kernel_0 as int),
                self.elements_before(step.work->Kernel_0 as int),
                line,
            ),
    {
        let stage = step.work->Kernel_0 as int;
        let station = self.spec_prefix_station(direction, step, kernel);
        let len = self.elements_before(stage);
        assert(self.stages@[stage].input == self.stages@[stage].output);
        let stride = station.pencil.stride_along(station.axis as int);
        assert forall|source: Seq<R>, original: Seq<R>, result: Seq<R>, outcome: Result<(), MixedError>|
            #[trigger]
            station.leaves(source, original, result, line, outcome) && source.len() == len
                && original.len() == len implies outcome is Ok by {
            match station.local {
                MixedRealLocal::R2r(plan) => {
                    lemma_sweep_holds::<R, R, LocalError, FR>(
                        *kernel,
                        stride,
                        source,
                        original,
                        result,
                        line,
                        mixed_r2r_lens(plan.plan(), line),
                        as_mixed_sweep(outcome),
                    );
                },
                _ => {},
            }
        }
    }

    /// The route has the stages of the plan.
    pub proof fn lemma_route(&self)
        requires
            self.wf(),
        ensures
            self.itinerary().wf(),
            self.itinerary().stages == self.stages@.len(),
            self.itinerary().kind.spec_has_boundary(),
    {
        assert(self.stages.len() == self.stages@.len());
    }
}

/// Where the values of a forward execution are.
pub open spec fn mixed_r2c_lies_there<R: FftReal, FR, FX, FC, XR, XC, const N: usize, const M: usize>(
    crew: MixedR2cForwardCrew<R, FR, FX, FC, XR, XC, N, M>,
    lens: (HalfLens, usize),
    at: Place,
    state: MixedR2cForwardTask<R, N, M>,
) -> bool {
    &&& mixed_r2c_lens_there(state.1) == lens
    &&& half_lies(
        crew.core.stages@,
        crew.core.boundary as int,
        crew.core.extra_shape.element_count as int,
        true,
        at,
        crew.source.data@.len() as int,
        mixed_half_load(state.1),
        state.0.data@.len() as int,
    )
}

proof fn lemma_mixed_r2c_course_there<R: FftReal, FR: Fn(&[R], usize) -> Result<Vec<R>, LocalError>, FX: Fn(&[R], usize) -> Result<Vec<Complex<R>>, LocalError>, FC: Fn(&[Complex<R>], usize) -> Result<Vec<Complex<R>>, LocalError>, XR: Fn(usize, Passage, Load<R, N, M>) -> (Load<R, N, M>, Result<(), FftError>), XC: Fn(usize, Passage, Load<Complex<R>, N, M>) -> (Load<Complex<R>, N, M>, Result<(), FftError>), const N: usize, const M: usize>(
    crew: MixedR2cForwardCrew<R, FR, FX, FC, XR, XC, N, M>,
    lens: (HalfLens, usize),
)
    requires
        crew.able(),
        crew.core.tails_accept::<R, FC>(crew.kernels@),
        accepts::<R, Complex<R>, LocalError, FX>(
            *crew.crossing,
            crew.core.plan().real_len as int,
            crew.core.plan().complex_len as int,
        ),
        crew.core.prefixes_accept::<R, FR>(crew.prefixes@),
        leads_on::<R, XR, N, M>(
            *crew.real_exchange,
            crew.core.transitions@,
            Direction::Forward,
            inputs_of(crew.core.stages@),
        ),
        leads_on::<Complex<R>, XC, N, M>(
            *crew.exchange,
            crew.core.transitions@,
            Direction::Forward,
            outputs_of(crew.core.stages@),
        ),
        boundary_resizes(crew.core.stages@, crew.core.boundary as int),
        crew.core.lines_fit_there(lens.0, lens.1),
    ensures
        keeps_course::<MixedR2cForwardTask<R, N, M>, MixedError, MixedR2cForwardCrew<R, FR, FX, FC, XR, XC, N, M>>(
            crew,
            crew.core.itinerary(),
            true,
            |step: Step| stays_outside(crew.core.itinerary(), step),
            |at: Place, state: MixedR2cForwardTask<R, N, M>| mixed_r2c_lies_there(crew, lens, at, state),
        ),
{
    let route = crew.core.itinerary();
    let extra = crew.core.extra_shape.element_count as int;
    let boundary = crew.core.boundary as int;
    let stages = crew.core.stages@;
    let lies = |at: Place, state: MixedR2cForwardTask<R, N, M>| mixed_r2c_lies_there(crew, lens, at, state);
    crew.core.lemma_route();
    assert forall|step: Step, at: Place, from: MixedR2cForwardTask<R, N, M>, to: MixedR2cForwardTask<R, N, M>, outcome: Result<(), MixedError>|
        #![trigger next_place(route, true, step, at), crew.does(step, from, to, outcome)]
        crew.does(step, from, to, outcome) && lies(at, from) && stays_outside(route, step)
            && next_place(route, true, step, at) is Some implies outcome is Ok && lies(next_place(route, true, step, at)->0, to) by {
        match step.work {
            Work::Exchange(index) => {
                lemma_half_carried_holds::<R, MixedError, XR, XC, N, M>(
                    route,
                    Direction::Forward,
                    (*crew.real_exchange, *crew.exchange),
                    crew.core.transitions@,
                    step,
                    index,
                    at,
                    stages,
                    extra,
                    crew.source.data@.len() as int,
                    mixed_half_load(from.1),
                    mixed_half_load(to.1),
                    from.0.data@.len() as int,
                    outcome,
                );
            },
            _ => {
                let stage = crew.core.stage_of(step);
                let crossing = crew.core.spec_forward_crossing(crew.crossing, lens.1);
                let stations = (
                    crew.core.spec_prefix_station(Direction::Forward, step, &crew.prefixes@[stage]),
                    crossing,
                    crew.core.spec_tail_station(Direction::Forward, step, &crew.kernels@[stage]),
                );
                if step.work is Kernel {
                    if stage < crew.core.boundary {
                        assert(crew.core.prefix_fits(stage, lens.0.reals));
                        assert(crew.core.prefix_accepts::<R, FR>(stage, crew.prefixes@[stage]));
                        crew.core.lemma_prefix_holds::<R, FR>(Direction::Forward, &crew.prefixes@[stage], step, lens.0.reals);
                    }
                    if stage > crew.core.boundary {
                        assert(crew.core.tail_fits(stage, lens.0.complexes));
                        assert(crew.core.tail_accepts::<R, FC>(stage, crew.kernels@[stage]));
                        crew.core.lemma_tail_holds::<R, FC>(
                            Direction::Forward,
                            &crew.kernels@[stage],
                            step,
                            lens.0.complexes,
                        );
                    }
                    if stage == boundary {
                        let source_len = crew.core.elements_before(stage);
                        let result_len = crew.core.elements_behind(stage);
                        assert forall|
                            source: Seq<R>,
                            original: Seq<Complex<R>>,
                            result: Seq<Complex<R>>,
                            local: Result<(), MixedError>,
                        |
                            #[trigger]
                            crossing.leaves(source, original, result, lens.0.crossing, local)
                                && source.len() == source_len && original.len() == result_len implies local is Ok by {
                            lemma_sweep_holds::<R, Complex<R>, LocalError, FX>(
                                *crew.crossing,
                                crossing.pencil.stride_along(crossing.axis as int),
                                source,
                                original,
                                result,
                                lens.0.crossing,
                                boundary_forward_lens(crossing.plan, lens.1),
                                as_mixed_sweep(local),
                            );
                        }
                        assert(station_holds::<R, Complex<R>, MixedError, MixedForwardCrossing<FX, N, M>>(
                            crossing,
                            source_len,
                            result_len,
                            lens.0.crossing,
                        ));
                    }
                }
                lemma_forward_holds::<R, MixedError, MixedRealStation<FR, N, M>, MixedForwardCrossing<FX, N, M>, MixedComplexStation<FC, N, M>, N, M>(
                    route,
                    stations,
                    step,
                    at,
                    stages,
                    extra,
                    crew.source.data@,
                    mixed_half_load(from.1),
                    mixed_half_load(to.1),
                    (from.0.data@, to.0.data@),
                    lens.0,
                    outcome,
                );
            },
        }
    }
}

/// What a forward execution out of place is owed success for: no kernel rejects a line,
/// the exchanges succeed, and the arguments are made for the plan.
pub open spec fn mixed_r2c_owed_there<R: FftReal, FR: Fn(&[R], usize) -> Result<Vec<R>, LocalError>, FX: Fn(&[R], usize) -> Result<Vec<Complex<R>>, LocalError>, FC: Fn(&[Complex<R>], usize) -> Result<Vec<Complex<R>>, LocalError>, XR: Fn(usize, Passage, Load<R, N, M>) -> (Load<R, N, M>, Result<(), FftError>), XC: Fn(usize, Passage, Load<Complex<R>, N, M>) -> (Load<Complex<R>, N, M>, Result<(), FftError>), const N: usize, const M: usize>(
    crew: MixedR2cForwardCrew<R, FR, FX, FC, XR, XC, N, M>,
    before: MixedR2cForwardTask<R, N, M>,
) -> bool {
    &&& crew.core.tails_accept::<R, FC>(crew.kernels@)
    &&& accepts::<R, Complex<R>, LocalError, FX>(
        *crew.crossing,
        crew.core.plan().real_len as int,
        crew.core.plan().complex_len as int,
    )
    &&& crew.core.prefixes_accept::<R, FR>(crew.prefixes@)
    &&& leads_on::<R, XR, N, M>(
        *crew.real_exchange,
        crew.core.transitions@,
        Direction::Forward,
        inputs_of(crew.core.stages@),
    )
    &&& leads_on::<Complex<R>, XC, N, M>(
        *crew.exchange,
        crew.core.transitions@,
        Direction::Forward,
        outputs_of(crew.core.stages@),
    )
    &&& boundary_resizes(crew.core.stages@, crew.core.boundary as int)
    &&& crew.core.lines_fit_there(mixed_r2c_lens_there(before.1).0, mixed_r2c_lens_there(before.1).1)
    &&& in_order(
        before.1.intermediate,
        crew.core.extra_shape.element_count as int,
        half_entries(crew.core.stages@, crew.core.boundary as int, true).1,
    )
    &&& crew.core.boundary > 0 ==> mixed_half_load(before.1).real_buffers is Some
        && before.1.real_intermediate is Some && in_order(
        before.1.real_intermediate->0,
        crew.core.extra_shape.element_count as int,
        half_entries(crew.core.stages@, crew.core.boundary as int, true).0,
    )
    &&& registered(
        before.1.intermediate,
        outputs_of(crew.core.stages@),
        crew.core.boundary as int,
        crew.core.stages@.len() as int,
    )
    &&& crew.core.boundary > 0 ==> registered(
        before.1.real_intermediate->0,
        inputs_of(crew.core.stages@),
        0,
        crew.core.boundary + 1,
    )
    &&& crew.source.data@.len() == crew.core.elements_before(0)
    &&& before.0.data@.len() == crew.core.elements_behind(crew.core.stages@.len() - 1)
}

/// A forward execution of a mixed real-to-complex plan out of place that starts on all processes
/// succeeds where no kernel rejects a line, the exchanges succeed, and the arguments are
/// made for the plan.
pub proof fn law_mixed_r2c_forward_succeeds<R: FftReal, FR: Fn(&[R], usize) -> Result<Vec<R>, LocalError>, FX: Fn(&[R], usize) -> Result<Vec<Complex<R>>, LocalError>, FC: Fn(&[Complex<R>], usize) -> Result<Vec<Complex<R>>, LocalError>, XR: Fn(usize, Passage, Load<R, N, M>) -> (Load<R, N, M>, Result<(), FftError>), XC: Fn(usize, Passage, Load<Complex<R>, N, M>) -> (Load<Complex<R>, N, M>, Result<(), FftError>), Q: Fn(u64, &Vec<u64>) -> Result<(), FftError>, A: Fn(bool) -> bool, const N: usize, const M: usize>(
    crew: MixedR2cForwardCrew<R, FR, FX, FC, XR, XC, N, M>,
    launch: Launch<MixedError>,
    same_plan: Q,
    agree: A,
    eager: Seq<bool>,
    before: MixedR2cForwardTask<R, N, M>,
    after: MixedR2cForwardTask<R, N, M>,
    outcome: Result<(), MixedError>,
)
    requires
        crew.able(),
        executed(
            launch,
            crew.core.descriptor,
            same_plan,
            agree,
            InTurn { crew: &crew },
            before,
            after,
            outcome,
        ),
        launch.steps@ == crew.core.itinerary().list(Direction::Forward, Mode::OutOfPlace, eager),
        ready(launch, crew.core.descriptor, same_plan, agree),
        mixed_r2c_owed_there(crew, before),
    ensures
        outcome is Ok,
        steps_run(InTurn { crew: &crew }, agree, launch.steps@, before, after, Ok::<(), MixedError>(())),
{
    let route = crew.core.itinerary();
    let lens = mixed_r2c_lens_there(before.1);
    let lies = |at: Place, state: MixedR2cForwardTask<R, N, M>| mixed_r2c_lies_there(crew, lens, at, state);
    let allowed = |step: Step| stays_outside(route, step);
    let steps = launch.steps@;
    crew.core.lemma_route();
    lemma_mixed_r2c_course_there(crew, lens);
    route.law_led_there(Mode::OutOfPlace, eager);
    route.law_stays_outside(Mode::OutOfPlace, eager);
    let start = route.start_there(Mode::OutOfPlace);
    lemma_course_holds::<MixedR2cForwardTask<R, N, M>, MixedError, MixedR2cForwardCrew<R, FR, FX, FC, XR, XC, N, M>>(crew, route, true, steps, start, allowed, lies);
    let sound = |index: int, state: MixedR2cForwardTask<R, N, M>| on_course(route, true, steps, start, lies, index, state);
    assert(steps.take(0) =~= Seq::<Step>::empty());
    assert(led(route, true, steps.take(0), start) == Some(start));
    assert(lies(start, before));
    assert(sound(0, before));
    law_execution_succeeds::<MixedR2cForwardTask<R, N, M>, MixedError, Q, MixedR2cForwardCrew<R, FR, FX, FC, XR, XC, N, M>, A>(
        launch,
        crew.core.descriptor,
        same_plan,
        agree,
        crew,
        before,
        after,
        outcome,
        sound,
    );
    match outcome {
        Ok(done) => {
            assert(outcome == Ok::<(), MixedError>(()));
        },
        Err(_) => {},
    }
}

/// A forward execution of a mixed real-to-complex plan with overlap that starts on all processes
/// succeeds where one without overlap does, and the parts of the exchanges succeed.
pub proof fn law_mixed_r2c_forward_overlapped_succeeds<R: FftReal, FR: Fn(&[R], usize) -> Result<Vec<R>, LocalError>, FX: Fn(&[R], usize) -> Result<Vec<Complex<R>>, LocalError>, FC: Fn(&[Complex<R>], usize) -> Result<Vec<Complex<R>>, LocalError>, XR: Fn(usize, Passage, Load<R, N, M>) -> (Load<R, N, M>, Result<(), FftError>), XC: Fn(usize, Passage, Load<Complex<R>, N, M>) -> (Load<Complex<R>, N, M>, Result<(), FftError>), YR: Fn(usize, Direction, Option<bool>, Load<R, N, M>) -> (Load<R, N, M>, Result<(), OverlapError<MixedError>>), YC: Fn(usize, Direction, Option<bool>, Load<Complex<R>, N, M>) -> (Load<Complex<R>, N, M>, Result<(), OverlapError<MixedError>>), Q: Fn(u64, &Vec<u64>) -> Result<(), FftError>, A: Fn(bool) -> bool, const N: usize, const M: usize>(
    crew: MixedR2cForwardOverlapCrew<R, FR, FX, FC, XR, XC, YR, YC, N, M>,
    launch: OverlapLaunch<MixedError>,
    same_plan: Q,
    agree: A,
    eager: Seq<bool>,
    before: MixedR2cForwardTask<R, N, M>,
    after: MixedR2cForwardTask<R, N, M>,
    outcome: Result<(), FftOverlapError<MixedError>>,
)
    requires
        crew.able(),
        executed_overlapped(
            launch,
            crew.crew.core.descriptor,
            same_plan,
            agree,
            Overlapped { crew: &crew },
            before,
            after,
            outcome,
        ),
        launch.steps@ == crew.crew.core.itinerary().list(Direction::Forward, Mode::Overlap, eager),
        ready_overlapped(launch, crew.crew.core.descriptor, same_plan, agree),
        mixed_r2c_owed_there(crew.crew, before),
        parts_lead_on::<R, MixedError, YR, N, M>(
            *crew.real_split,
            Direction::Forward,
            inputs_of(crew.crew.core.stages@),
        ),
        parts_lead_on::<Complex<R>, MixedError, YC, N, M>(
            *crew.split,
            Direction::Forward,
            outputs_of(crew.crew.core.stages@),
        ),
    ensures
        outcome is Ok,
        encloses::<MixedR2cForwardTask<R, N, M>, MixedError, MixedR2cForwardOverlapCrew<R, FR, FX, FC, XR, XC, YR, YC, N, M>>(crew) ==> ran_overlapped::<MixedR2cForwardTask<R, N, M>, MixedError, MixedR2cForwardOverlapCrew<R, FR, FX, FC, XR, XC, YR, YC, N, M>, A>(
            crew,
            agree,
            launch.steps@,
            before,
            after,
        ),
{
    let inner = crew.crew;
    let route = inner.core.itinerary();
    let stages = inner.core.stages@;
    let extra = inner.core.extra_shape.element_count as int;
    let lens = mixed_r2c_lens_there(before.1);
    let lies = |at: Place, state: MixedR2cForwardTask<R, N, M>| mixed_r2c_lies_there(inner, lens, at, state);
    let allowed = |step: Step| stays_outside(route, step);
    let steps = launch.steps@;
    inner.core.lemma_route();
    lemma_mixed_r2c_course_there(inner, lens);
    assert forall|step: Step, at: Place, from: MixedR2cForwardTask<R, N, M>, to: MixedR2cForwardTask<R, N, M>, local: Result<(), MixedError>|
        #![trigger next_place(route, true, step, at), crew.does(step, from, to, local)]
        crew.does(step, from, to, local) && lies(at, from) && allowed(step) && next_place(
            route,
            true,
            step,
            at,
        ) is Some implies local is Ok && lies(next_place(route, true, step, at)->0, to) by {
        assert(inner.does(step, from, to, local));
    }
    assert forall|
        step: Step,
        index: usize,
        at: Place,
        from: MixedR2cForwardTask<R, N, M>,
        to: MixedR2cForwardTask<R, N, M>,
        local: Result<(), OverlapError<MixedError>>,
    |
        #![trigger next_place(route, true, step, at), crew.lands(index, from, to, local)]
        crew.lands(index, from, to, local) && step.work == Work::Exchange(index) && lies(at, from)
            && next_place(route, true, step, at) is Some implies local is Ok && lies(
        next_place(route, true, step, at)->0,
        to,
    ) by {
        lemma_half_part_lands::<R, MixedError, YR, YC, N, M>(
            route,
            Direction::Forward,
            (*crew.real_split, *crew.split),
            step,
            index,
            at,
            stages,
            extra,
            inner.source.data@.len() as int,
            mixed_half_load(from.1),
            mixed_half_load(to.1),
            from.0.data@.len() as int,
            local,
        );
    }
    assert forall|
        index: usize,
        at: Place,
        from: MixedR2cForwardTask<R, N, M>,
        to: MixedR2cForwardTask<R, N, M>,
        local: Result<(), OverlapError<MixedError>>,
    |
        #![trigger crew.settles(index, true, from, to, local), lies(at, from)]
        crew.settles(index, true, from, to, local) && lies(at, from) implies local is Ok && lies(
        at,
        to,
    ) by {
        lemma_half_part_settles::<R, MixedError, YR, YC, N, M>(
            inner.core.boundary as int,
            Direction::Forward,
            (*crew.real_split, *crew.split),
            index,
            at,
            stages,
            extra,
            inner.source.data@.len() as int,
            mixed_half_load(from.1),
            mixed_half_load(to.1),
            from.0.data@.len() as int,
            local,
        );
    }
    route.law_led_there(Mode::Overlap, eager);
    route.law_stays_outside(Mode::Overlap, eager);
    let start = route.start_there(Mode::Overlap);
    lemma_overlap_course_holds::<MixedR2cForwardTask<R, N, M>, MixedError, MixedR2cForwardOverlapCrew<R, FR, FX, FC, XR, XC, YR, YC, N, M>>(crew, route, true, steps, start, allowed, lies);
    let sound = |index: int, state: MixedR2cForwardTask<R, N, M>| on_course(route, true, steps, start, lies, index, state);
    assert(steps.take(0) =~= Seq::<Step>::empty());
    assert(led(route, true, steps.take(0), start) == Some(start));
    assert(lies(start, before));
    assert(sound(0, before));
    law_overlapped_execution_succeeds::<MixedR2cForwardTask<R, N, M>, MixedError, Q, Overlapped<MixedR2cForwardOverlapCrew<R, FR, FX, FC, XR, XC, YR, YC, N, M>>, A>(
        launch,
        inner.core.descriptor,
        same_plan,
        agree,
        Overlapped { crew: &crew },
        before,
        after,
        outcome,
        sound,
    );
    match outcome {
        Ok(done) => {
            assert(outcome == Ok::<(), FftOverlapError<MixedError>>(()));
        },
        Err(_) => {},
    }
}

/// Where the values of a reverse execution are.
pub open spec fn mixed_r2c_lies_home<R: FftReal, FR, FX, FC, XR, XC, V, const N: usize, const M: usize>(
    crew: MixedR2cReverseCrew<R, FR, FX, FC, XR, XC, V, N, M>,
    lens: (HalfLens, usize),
    at: Place,
    state: MixedR2cReverseTask<R, N, M>,
) -> bool {
    &&& mixed_r2c_lens_home(state.1) == lens
    &&& half_lies(
        crew.core.stages@,
        crew.core.boundary as int,
        crew.core.extra_shape.element_count as int,
        false,
        at,
        crew.source.data@.len() as int,
        mixed_half_load(state.1),
        state.0.data@.len() as int,
    )
}

proof fn lemma_mixed_r2c_course_home<R: FftReal, FR: Fn(&[R], usize) -> Result<Vec<R>, LocalError>, FX: Fn(&[Complex<R>], usize) -> Result<Vec<R>, LocalError>, FC: Fn(&[Complex<R>], usize) -> Result<Vec<Complex<R>>, LocalError>, XR: Fn(usize, Passage, Load<R, N, M>) -> (Load<R, N, M>, Result<(), FftError>), XC: Fn(usize, Passage, Load<Complex<R>, N, M>) -> (Load<Complex<R>, N, M>, Result<(), FftError>), V: Inspector<R, MixedError, N, M>, const N: usize, const M: usize>(
    crew: MixedR2cReverseCrew<R, FR, FX, FC, XR, XC, V, N, M>,
    lens: (HalfLens, usize),
)
    requires
        crew.able(),
        crew.direction != Direction::Forward,
        crew.core.tails_accept::<R, FC>(crew.kernels@),
        accepts::<Complex<R>, R, LocalError, FX>(
            *crew.crossing,
            crew.core.plan().complex_len as int,
            crew.core.plan().real_len as int,
        ),
        crew.core.prefixes_accept::<R, FR>(crew.prefixes@),
        leads_on::<R, XR, N, M>(
            *crew.real_exchange,
            crew.core.transitions@,
            crew.direction,
            inputs_of(crew.core.stages@),
        ),
        leads_on::<Complex<R>, XC, N, M>(
            *crew.exchange,
            crew.core.transitions@,
            crew.direction,
            outputs_of(crew.core.stages@),
        ),
        boundary_resizes(crew.core.stages@, crew.core.boundary as int),
        clearing_stays::<R, MixedError, V, N, M>(*crew.inspector),
        crew.core.lines_fit_home(lens.0, lens.1),
    ensures
        keeps_course_checked::<MixedR2cReverseTask<R, N, M>, MixedError, MixedR2cReverseCrew<R, FR, FX, FC, XR, XC, V, N, M>>(
            crew,
            crew.core.itinerary(),
            false,
            |step: Step| stays_outside(crew.core.itinerary(), step),
            |at: Place, state: MixedR2cReverseTask<R, N, M>| mixed_r2c_lies_home(crew, lens, at, state),
        ),
{
    let route = crew.core.itinerary();
    let extra = crew.core.extra_shape.element_count as int;
    let boundary = crew.core.boundary as int;
    let stages = crew.core.stages@;
    let lies = |at: Place, state: MixedR2cReverseTask<R, N, M>| mixed_r2c_lies_home(crew, lens, at, state);
    crew.core.lemma_route();
    assert forall|step: Step, at: Place, from: MixedR2cReverseTask<R, N, M>, to: MixedR2cReverseTask<R, N, M>, outcome: Result<(), MixedError>|
        #![trigger next_place(route, false, step, at), crew.does(step, from, to, outcome)]
        crew.does(step, from, to, outcome) && lies(at, from) && stays_outside(route, step)
            && next_place(route, false, step, at) is Some implies (outcome is Ok || is_check(step)) && (outcome is Ok ==> lies(next_place(route, false, step, at)->0, to)) by {
        match step.work {
            Work::Exchange(index) => {
                lemma_half_carried_holds::<R, MixedError, XR, XC, N, M>(
                    route,
                    crew.direction,
                    (*crew.real_exchange, *crew.exchange),
                    crew.core.transitions@,
                    step,
                    index,
                    at,
                    stages,
                    extra,
                    crew.source.data@.len() as int,
                    mixed_half_load(from.1),
                    mixed_half_load(to.1),
                    from.0.data@.len() as int,
                    outcome,
                );
            },
            Work::Validate => {
                assert(to == from);
            },
            Work::Clear => {
                if outcome is Ok {
                    match outcome {
                        Ok(done) => {
                            assert(crew.inspector.clears(
                                from.1.intermediate,
                                to.1.intermediate,
                                Ok(()),
                            ));
                        },
                        Err(_) => {},
                    }
                }
            },
            _ => {
                let stage = crew.core.stage_of(step);
                let crossing = crew.core.spec_reverse_crossing(crew.crossing, lens.1);
                let stations = (
                    crew.core.spec_prefix_station(Direction::Inverse, step, &crew.prefixes@[stage]),
                    crossing,
                    crew.core.spec_tail_station(Direction::Inverse, step, &crew.kernels@[stage]),
                );
                if step.work is Kernel {
                    if stage < crew.core.boundary {
                        assert(crew.core.prefix_fits(stage, lens.0.reals));
                        assert(crew.core.prefix_accepts::<R, FR>(stage, crew.prefixes@[stage]));
                        crew.core.lemma_prefix_holds::<R, FR>(Direction::Inverse, &crew.prefixes@[stage], step, lens.0.reals);
                    }
                    if stage > crew.core.boundary {
                        assert(crew.core.tail_fits(stage, lens.0.complexes));
                        assert(crew.core.tail_accepts::<R, FC>(stage, crew.kernels@[stage]));
                        crew.core.lemma_tail_holds::<R, FC>(
                            Direction::Inverse,
                            &crew.kernels@[stage],
                            step,
                            lens.0.complexes,
                        );
                    }
                    if stage == boundary {
                        let source_len = crew.core.elements_behind(stage);
                        let result_len = crew.core.elements_before(stage);
                        assert forall|
                            source: Seq<Complex<R>>,
                            original: Seq<R>,
                            result: Seq<R>,
                            local: Result<(), MixedError>,
                        |
                            #[trigger]
                            crossing.leaves(source, original, result, lens.0.crossing, local)
                                && source.len() == source_len && original.len() == result_len implies local is Ok by {
                            lemma_sweep_holds::<Complex<R>, R, LocalError, FX>(
                                *crew.crossing,
                                crossing.pencil.stride_along(crossing.axis as int),
                                source,
                                original,
                                result,
                                lens.0.crossing,
                                boundary_reverse_lens(crossing.plan, lens.1),
                                as_mixed_sweep(local),
                            );
                        }
                        assert(station_holds::<Complex<R>, R, MixedError, MixedReverseCrossing<FX, N, M>>(
                            crossing,
                            source_len,
                            result_len,
                            lens.0.crossing,
                        ));
                    }
                }
                lemma_reverse_holds::<R, MixedError, MixedRealStation<FR, N, M>, MixedReverseCrossing<FX, N, M>, MixedComplexStation<FC, N, M>, N, M>(
                    route,
                    stations,
                    step,
                    at,
                    stages,
                    extra,
                    crew.source.data@,
                    mixed_half_load(from.1),
                    mixed_half_load(to.1),
                    (from.0.data@, to.0.data@),
                    lens.0,
                    outcome,
                );
            },
        }
    }
}

/// What a reverse execution out of place is owed success for: no kernel rejects a line,
/// the exchanges succeed, and the arguments are made for the plan.
pub open spec fn mixed_r2c_owed_home<R: FftReal, FR: Fn(&[R], usize) -> Result<Vec<R>, LocalError>, FX: Fn(&[Complex<R>], usize) -> Result<Vec<R>, LocalError>, FC: Fn(&[Complex<R>], usize) -> Result<Vec<Complex<R>>, LocalError>, XR: Fn(usize, Passage, Load<R, N, M>) -> (Load<R, N, M>, Result<(), FftError>), XC: Fn(usize, Passage, Load<Complex<R>, N, M>) -> (Load<Complex<R>, N, M>, Result<(), FftError>), V: Inspector<R, MixedError, N, M>, const N: usize, const M: usize>(
    crew: MixedR2cReverseCrew<R, FR, FX, FC, XR, XC, V, N, M>,
    before: MixedR2cReverseTask<R, N, M>,
) -> bool {
    &&& crew.core.tails_accept::<R, FC>(crew.kernels@)
    &&& accepts::<Complex<R>, R, LocalError, FX>(
        *crew.crossing,
        crew.core.plan().complex_len as int,
        crew.core.plan().real_len as int,
    )
    &&& crew.core.prefixes_accept::<R, FR>(crew.prefixes@)
    &&& leads_on::<R, XR, N, M>(
        *crew.real_exchange,
        crew.core.transitions@,
        crew.direction,
        inputs_of(crew.core.stages@),
    )
    &&& leads_on::<Complex<R>, XC, N, M>(
        *crew.exchange,
        crew.core.transitions@,
        crew.direction,
        outputs_of(crew.core.stages@),
    )
    &&& boundary_resizes(crew.core.stages@, crew.core.boundary as int)
    &&& clearing_stays::<R, MixedError, V, N, M>(*crew.inspector)
    &&& crew.core.lines_fit_home(mixed_r2c_lens_home(before.1).0, mixed_r2c_lens_home(before.1).1)
    &&& in_order(
        before.1.intermediate,
        crew.core.extra_shape.element_count as int,
        half_entries(crew.core.stages@, crew.core.boundary as int, false).1,
    )
    &&& crew.core.boundary > 0 ==> mixed_half_load(before.1).real_buffers is Some
        && before.1.real_intermediate is Some && in_order(
        before.1.real_intermediate->0,
        crew.core.extra_shape.element_count as int,
        half_entries(crew.core.stages@, crew.core.boundary as int, false).0,
    )
    &&& registered(
        before.1.intermediate,
        outputs_of(crew.core.stages@),
        crew.core.boundary as int,
        crew.core.stages@.len() as int,
    )
    &&& crew.core.boundary > 0 ==> registered(
        before.1.real_intermediate->0,
        inputs_of(crew.core.stages@),
        0,
        crew.core.boundary + 1,
    )
    &&& crew.source.data@.len() == crew.core.elements_behind(crew.core.stages@.len() - 1)
    &&& before.0.data@.len() == crew.core.elements_before(0)
}

/// A reverse execution of a mixed real-to-complex plan out of place that starts on all processes
/// succeeds where no kernel rejects a line, the endpoint planes pass their checks, the exchanges
/// succeed, and the arguments are made for the plan.
pub proof fn law_mixed_r2c_reverse_succeeds<R: FftReal, FR: Fn(&[R], usize) -> Result<Vec<R>, LocalError>, FX: Fn(&[Complex<R>], usize) -> Result<Vec<R>, LocalError>, FC: Fn(&[Complex<R>], usize) -> Result<Vec<Complex<R>>, LocalError>, XR: Fn(usize, Passage, Load<R, N, M>) -> (Load<R, N, M>, Result<(), FftError>), XC: Fn(usize, Passage, Load<Complex<R>, N, M>) -> (Load<Complex<R>, N, M>, Result<(), FftError>), V: Inspector<R, MixedError, N, M>, Q: Fn(u64, &Vec<u64>) -> Result<(), FftError>, A: Fn(bool) -> bool, const N: usize, const M: usize>(
    crew: MixedR2cReverseCrew<R, FR, FX, FC, XR, XC, V, N, M>,
    launch: Launch<MixedError>,
    same_plan: Q,
    agree: A,
    eager: Seq<bool>,
    before: MixedR2cReverseTask<R, N, M>,
    after: MixedR2cReverseTask<R, N, M>,
    outcome: Result<(), MixedError>,
    reached: spec_fn(int, MixedR2cReverseTask<R, N, M>) -> bool,
)
    requires
        crew.able(),
        crew.direction != Direction::Forward,
        executed(
            launch,
            crew.core.descriptor,
            same_plan,
            agree,
            InTurn { crew: &crew },
            before,
            after,
            outcome,
        ),
        launch.steps@ == crew.core.itinerary().list(crew.direction, Mode::OutOfPlace, eager),
        ready(launch, crew.core.descriptor, same_plan, agree),
        mixed_r2c_owed_home(crew, before),
        checks_pass::<MixedR2cReverseTask<R, N, M>, MixedError, MixedR2cReverseCrew<R, FR, FX, FC, XR, XC, V, N, M>>(crew, launch.steps@, reached),
        reached(0, before),
    ensures
        outcome is Ok,
        steps_run(InTurn { crew: &crew }, agree, launch.steps@, before, after, Ok::<(), MixedError>(())),
{
    let route = crew.core.itinerary();
    let lens = mixed_r2c_lens_home(before.1);
    let lies = |at: Place, state: MixedR2cReverseTask<R, N, M>| mixed_r2c_lies_home(crew, lens, at, state);
    let allowed = |step: Step| stays_outside(route, step);
    let steps = launch.steps@;
    crew.core.lemma_route();
    lemma_mixed_r2c_course_home(crew, lens);
    route.law_led_home(Mode::OutOfPlace, eager);
    route.law_stays_outside(Mode::OutOfPlace, eager);
    let start = route.start_home(Mode::OutOfPlace);
    lemma_checked_course_holds::<MixedR2cReverseTask<R, N, M>, MixedError, MixedR2cReverseCrew<R, FR, FX, FC, XR, XC, V, N, M>>(crew, route, false, steps, start, allowed, lies, reached);
    let sound = |index: int, state: MixedR2cReverseTask<R, N, M>| on_course(route, false, steps, start, lies, index, state) && reached(index, state);
    assert(steps.take(0) =~= Seq::<Step>::empty());
    assert(led(route, false, steps.take(0), start) == Some(start));
    assert(lies(start, before));
    assert(sound(0, before));
    law_execution_succeeds::<MixedR2cReverseTask<R, N, M>, MixedError, Q, MixedR2cReverseCrew<R, FR, FX, FC, XR, XC, V, N, M>, A>(
        launch,
        crew.core.descriptor,
        same_plan,
        agree,
        crew,
        before,
        after,
        outcome,
        sound,
    );
    match outcome {
        Ok(done) => {
            assert(outcome == Ok::<(), MixedError>(()));
        },
        Err(_) => {},
    }
}

/// A reverse execution of a mixed real-to-complex plan with overlap that starts on all processes
/// succeeds where one without overlap does, and the parts of the exchanges succeed.
pub proof fn law_mixed_r2c_reverse_overlapped_succeeds<R: FftReal, FR: Fn(&[R], usize) -> Result<Vec<R>, LocalError>, FX: Fn(&[Complex<R>], usize) -> Result<Vec<R>, LocalError>, FC: Fn(&[Complex<R>], usize) -> Result<Vec<Complex<R>>, LocalError>, XR: Fn(usize, Passage, Load<R, N, M>) -> (Load<R, N, M>, Result<(), FftError>), XC: Fn(usize, Passage, Load<Complex<R>, N, M>) -> (Load<Complex<R>, N, M>, Result<(), FftError>), V: Inspector<R, MixedError, N, M>, YR: Fn(usize, Direction, Option<bool>, Load<R, N, M>) -> (Load<R, N, M>, Result<(), OverlapError<MixedError>>), YC: Fn(usize, Direction, Option<bool>, Load<Complex<R>, N, M>) -> (Load<Complex<R>, N, M>, Result<(), OverlapError<MixedError>>), Q: Fn(u64, &Vec<u64>) -> Result<(), FftError>, A: Fn(bool) -> bool, const N: usize, const M: usize>(
    crew: MixedR2cReverseOverlapCrew<R, FR, FX, FC, XR, XC, V, YR, YC, N, M>,
    launch: OverlapLaunch<MixedError>,
    same_plan: Q,
    agree: A,
    eager: Seq<bool>,
    before: MixedR2cReverseTask<R, N, M>,
    after: MixedR2cReverseTask<R, N, M>,
    outcome: Result<(), FftOverlapError<MixedError>>,
    reached: spec_fn(int, MixedR2cReverseTask<R, N, M>) -> bool,
)
    requires
        crew.able(),
        crew.crew.direction != Direction::Forward,
        executed_overlapped(
            launch,
            crew.crew.core.descriptor,
            same_plan,
            agree,
            Overlapped { crew: &crew },
            before,
            after,
            outcome,
        ),
        launch.steps@ == crew.crew.core.itinerary().list(crew.crew.direction, Mode::Overlap, eager),
        ready_overlapped(launch, crew.crew.core.descriptor, same_plan, agree),
        mixed_r2c_owed_home(crew.crew, before),
        parts_lead_on::<R, MixedError, YR, N, M>(
            *crew.real_split,
            crew.crew.direction,
            inputs_of(crew.crew.core.stages@),
        ),
        parts_lead_on::<Complex<R>, MixedError, YC, N, M>(
            *crew.split,
            crew.crew.direction,
            outputs_of(crew.crew.core.stages@),
        ),
        checks_pass::<MixedR2cReverseTask<R, N, M>, MixedError, MixedR2cReverseOverlapCrew<R, FR, FX, FC, XR, XC, V, YR, YC, N, M>>(crew, launch.steps@, reached),
        reached_inside::<MixedR2cReverseTask<R, N, M>, MixedError, MixedR2cReverseOverlapCrew<R, FR, FX, FC, XR, XC, V, YR, YC, N, M>>(crew, launch.steps@, reached),
        reached(0, before),
    ensures
        outcome is Ok,
        encloses::<MixedR2cReverseTask<R, N, M>, MixedError, MixedR2cReverseOverlapCrew<R, FR, FX, FC, XR, XC, V, YR, YC, N, M>>(crew) ==> ran_overlapped::<MixedR2cReverseTask<R, N, M>, MixedError, MixedR2cReverseOverlapCrew<R, FR, FX, FC, XR, XC, V, YR, YC, N, M>, A>(
            crew,
            agree,
            launch.steps@,
            before,
            after,
        ),
{
    let inner = crew.crew;
    let route = inner.core.itinerary();
    let stages = inner.core.stages@;
    let extra = inner.core.extra_shape.element_count as int;
    let lens = mixed_r2c_lens_home(before.1);
    let lies = |at: Place, state: MixedR2cReverseTask<R, N, M>| mixed_r2c_lies_home(inner, lens, at, state);
    let allowed = |step: Step| stays_outside(route, step);
    let steps = launch.steps@;
    inner.core.lemma_route();
    lemma_mixed_r2c_course_home(inner, lens);
    assert forall|step: Step, at: Place, from: MixedR2cReverseTask<R, N, M>, to: MixedR2cReverseTask<R, N, M>, local: Result<(), MixedError>|
        #![trigger next_place(route, false, step, at), crew.does(step, from, to, local)]
        crew.does(step, from, to, local) && lies(at, from) && allowed(step) && next_place(
            route,
            false,
            step,
            at,
        ) is Some implies (local is Ok || is_check(step)) && (local is Ok ==> lies(next_place(route, false, step, at)->0, to)) by {
        assert(inner.does(step, from, to, local));
    }
    assert forall|
        step: Step,
        index: usize,
        at: Place,
        from: MixedR2cReverseTask<R, N, M>,
        to: MixedR2cReverseTask<R, N, M>,
        local: Result<(), OverlapError<MixedError>>,
    |
        #![trigger next_place(route, false, step, at), crew.lands(index, from, to, local)]
        crew.lands(index, from, to, local) && step.work == Work::Exchange(index) && lies(at, from)
            && next_place(route, false, step, at) is Some implies local is Ok && lies(
        next_place(route, false, step, at)->0,
        to,
    ) by {
        lemma_half_part_lands::<R, MixedError, YR, YC, N, M>(
            route,
            inner.direction,
            (*crew.real_split, *crew.split),
            step,
            index,
            at,
            stages,
            extra,
            inner.source.data@.len() as int,
            mixed_half_load(from.1),
            mixed_half_load(to.1),
            from.0.data@.len() as int,
            local,
        );
    }
    assert forall|
        index: usize,
        at: Place,
        from: MixedR2cReverseTask<R, N, M>,
        to: MixedR2cReverseTask<R, N, M>,
        local: Result<(), OverlapError<MixedError>>,
    |
        #![trigger crew.settles(index, true, from, to, local), lies(at, from)]
        crew.settles(index, true, from, to, local) && lies(at, from) implies local is Ok && lies(
        at,
        to,
    ) by {
        lemma_half_part_settles::<R, MixedError, YR, YC, N, M>(
            inner.core.boundary as int,
            inner.direction,
            (*crew.real_split, *crew.split),
            index,
            at,
            stages,
            extra,
            inner.source.data@.len() as int,
            mixed_half_load(from.1),
            mixed_half_load(to.1),
            from.0.data@.len() as int,
            local,
        );
    }
    route.law_led_home(Mode::Overlap, eager);
    route.law_stays_outside(Mode::Overlap, eager);
    let start = route.start_home(Mode::Overlap);
    lemma_overlap_checked_course_holds::<MixedR2cReverseTask<R, N, M>, MixedError, MixedR2cReverseOverlapCrew<R, FR, FX, FC, XR, XC, V, YR, YC, N, M>>(crew, route, false, steps, start, allowed, lies, reached);
    let sound = |index: int, state: MixedR2cReverseTask<R, N, M>| on_course(route, false, steps, start, lies, index, state) && reached(index, state);
    assert(steps.take(0) =~= Seq::<Step>::empty());
    assert(led(route, false, steps.take(0), start) == Some(start));
    assert(lies(start, before));
    assert(sound(0, before));
    law_overlapped_execution_succeeds::<MixedR2cReverseTask<R, N, M>, MixedError, Q, Overlapped<MixedR2cReverseOverlapCrew<R, FR, FX, FC, XR, XC, V, YR, YC, N, M>>, A>(
        launch,
        inner.core.descriptor,
        same_plan,
        agree,
        Overlapped { crew: &crew },
        before,
        after,
        outcome,
        sound,
    );
    match outcome {
        Ok(done) => {
            assert(outcome == Ok::<(), FftOverlapError<MixedError>>(()));
        },
        Err(_) => {},
    }
}

} // verus!
